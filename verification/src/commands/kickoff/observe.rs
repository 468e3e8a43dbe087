//! Looking after agents that were launched: their status, logs and reports, and how
//! to stop them.

use crate::commands::kickoff::launch;
use crate::commands::kickoff::naming;
use crate::commands::kickoff::naming::{agent_worktree_slug, tmux_session_name};
use crate::commands::kickoff::options;
use crate::commands::kickoff::options::{
    parse_container_mode, parse_duration, parse_verify_level, ContainerMode, VerifyLevel,
};
use crate::commands::kickoff::report;
use crate::commands::kickoff::report::{
    format_report_all_table, format_report_markdown, format_report_table, validate_kickoff_report,
    KickoffReport, ReportFormat,
};
use crate::json;
use crate::json::text_at;
use crate::json_object;
use crate::paths::join_path;
use crate::text;
use crate::text::{after_last_str, dec_u64, ends_with, eq_str, own, trim_str};
use vstd::prelude::*;

verus! {

// ---------------------------------------------------------------------------
// Status
// ---------------------------------------------------------------------------

/// A worktree, with what its status file holds where there is one.
pub struct WorktreeEntry {
    pub name: String,
    pub status: Option<String>,
}

/// What a status file says, or what stands for it where there is none.
pub open spec fn status_or(status: Option<Seq<char>>, otherwise: Seq<char>) -> Seq<char> {
    match status {
        Some(content) => text::trim(content),
        None => otherwise,
    }
}

fn trimmed_or(status: Option<&str>, otherwise: &str) -> (r: String)
    ensures
        r@ == status_or(text::opt_view(status), otherwise@),
{
    match status {
        Some(content) => trim_str(content),
        None => own(otherwise),
    }
}

/// The lines on the worktrees that there are.
pub open spec fn with_worktrees(acc: Seq<char>, entries: Seq<WorktreeEntry>, n: nat) -> Seq<char>
    decreases n,
{
    if n == 0 {
        acc
    } else {
        with_worktrees(acc, entries, (n - 1) as nat) + "  "@ + entries[n - 1].name@ + " — "@
            + status_or(text::opt_str(entries[n - 1].status), "running"@) + "\n"@
    }
}

/// What is printed where the agent has no worktree.
pub fn list_worktrees(entries: Option<&Vec<WorktreeEntry>>) -> (out: String)
    ensures
        out@ == match entries {
            Some(list) => with_worktrees("Available worktrees:\n"@, list@, list@.len()),
            None => "No worktrees found.\n"@,
        },
{
    let list = match entries {
        Some(list) => list,
        None => {
            return own("No worktrees found.\n");
        },
    };
    let mut out = own("Available worktrees:\n");
    let mut i: usize = 0;
    while i < list.len()
        invariant
            i <= list@.len(),
            out@ == with_worktrees("Available worktrees:\n"@, list@, i as nat),
        decreases list@.len() - i,
    {
        out.append("  ");
        out.append(list[i].name.as_str());
        out.append(" — ");
        let status = match &list[i].status {
            Some(s) => trimmed_or(Some(s.as_str()), "running"),
            None => own("running"),
        };
        out.append(status.as_str());
        out.append("\n");
        i = i + 1;
    }
    out
}

/// The names under which the heartbeat of an agent is looked for: its own first.
pub fn heartbeat_names(agent: &str) -> (r: (String, String))
    ensures
        r.0@ == agent@,
        r.1@ == "driver--"@ + naming::worktree_slug(agent@),
{
    let mut second = own("driver--");
    second.append(agent_worktree_slug(agent).as_str());
    (own(agent), second)
}

/// What is printed of an agent with a worktree. The heartbeat is the file that was
/// found, where one was; its line comes only where it holds a time.
pub open spec fn status_text(
    agent: Seq<char>,
    worktree: Seq<char>,
    status: Option<Seq<char>>,
    session_active: bool,
    heartbeat: Option<Seq<char>>,
) -> Seq<char> {
    let session = naming::session_name(naming::worktree_slug(agent));
    let head = "Agent:     "@ + agent + "\nWorktree:  "@ + worktree + "\nStatus:    "@ + status_or(
        status,
        "running (no status file yet)"@,
    ) + "\n"@;
    let tmux = if session_active {
        head + "tmux:      active ("@ + session + ")\n"@
    } else {
        head + "tmux:      no active session\n"@
    };
    match heartbeat {
        Some(content) => match json_object::text_of(json::at(content, "timestamp"@)) {
            Some(time) => tmux + "Heartbeat: "@ + time + "\n"@,
            None => tmux,
        },
        None => tmux,
    }
}

/// `crosslink kickoff status <agent>`, for an agent with a worktree.
pub fn status(
    agent: &str,
    worktree_dir: &str,
    status_file: Option<&str>,
    session_active: bool,
    heartbeat: Option<&str>,
) -> (out: String)
    requires
        naming::session_fits(naming::worktree_slug(agent@)),
    ensures
        out@ == status_text(
            agent@,
            worktree_dir@,
            text::opt_view(status_file),
            session_active,
            text::opt_view(heartbeat),
        ),
{
    let mut out = own("Agent:     ");
    out.append(agent);
    out.append("\nWorktree:  ");
    out.append(worktree_dir);
    out.append("\nStatus:    ");
    out.append(trimmed_or(status_file, "running (no status file yet)").as_str());
    out.append("\n");
    if session_active {
        let slug = agent_worktree_slug(agent);
        out.append("tmux:      active (");
        out.append(tmux_session_name(slug.as_str()).as_str());
        out.append(")\n");
    } else {
        out.append("tmux:      no active session\n");
    }
    if let Some(content) = heartbeat {
        if let Some(time) = text_at(content, "timestamp") {
            out.append("Heartbeat: ");
            out.append(time.as_str());
            out.append("\n");
        }
    }
    out
}

/// The path of an agent's worktree.
pub fn agent_worktree(root: &str, agent: &str) -> (r: String)
    ensures
        r@ == launch::worktree_path(root@, naming::worktree_slug(agent@)),
{
    join_path(join_path(root, ".worktrees").as_str(), agent_worktree_slug(agent).as_str())
}

// ---------------------------------------------------------------------------
// Logs
// ---------------------------------------------------------------------------

/// The path of the worktree whose commits are shown with an agent's log. Of an agent's name
/// only what stands behind the last `--` is looked at.
pub fn log_worktree(root: &str, agent: &str) -> (r: String)
    ensures
        r@ == launch::worktree_path(root@, text::after_last(agent@, "--"@)),
{
    join_path(join_path(root, ".worktrees").as_str(), after_last_str(agent, "--").as_str())
}

/// Whether a directory on the hub belongs to an agent: it has the agent's name, or is
/// that of some parent's agent on the same slug.
pub open spec fn is_agent_dir(name: Seq<char>, agent: Seq<char>) -> bool {
    name == agent || text::has_suffix(name, "--"@ + text::after_last(agent, "--"@))
}

/// The first directory that belongs to an agent, from the `n`-th on.
pub open spec fn first_agent_dir(names: Seq<Seq<char>>, agent: Seq<char>, n: nat) -> Option<nat>
    decreases names.len() - n,
{
    if n >= names.len() {
        None
    } else if is_agent_dir(names[n as int], agent) {
        Some(n)
    } else {
        first_agent_dir(names, agent, n + 1)
    }
}

/// Finds the first directory that belongs to an agent.
pub fn find_agent_dir(names: &Vec<String>, agent: &str) -> (r: Option<usize>)
    ensures
        match r {
            Some(i) => first_agent_dir(text::strs(names@), agent@, 0) == Some(i as nat) && i
                < names@.len(),
            None => first_agent_dir(text::strs(names@), agent@, 0) is None,
        },
{
    let mut suffix = own("--");
    suffix.append(after_last_str(agent, "--").as_str());
    let ghost views = text::strs(names@);
    let mut i: usize = 0;
    while i < names.len()
        invariant
            i <= names@.len(),
            views == text::strs(names@),
            suffix@ == "--"@ + text::after_last(agent@, "--"@),
            first_agent_dir(views, agent@, 0) == first_agent_dir(views, agent@, i as nat),
        decreases names@.len() - i,
    {
        assert(views[i as int] == names@[i as int]@);
        if eq_str(names[i].as_str(), agent) || ends_with(names[i].as_str(), suffix.as_str()) {
            return Some(i);
        }
        i = i + 1;
    }
    None
}

/// What is printed of an agent's directory on the hub.
pub open spec fn agent_log(
    name: Seq<char>,
    heartbeat: Option<Seq<char>>,
    events_bytes: Option<u64>,
) -> Seq<char> {
    let head = "Agent: "@ + name + "\n"@;
    let beat = match heartbeat {
        Some(content) => head + "Heartbeat: "@ + text::trim(content) + "\n"@,
        None => head,
    };
    match events_bytes {
        Some(bytes) => beat + "Events log: "@ + text::dec(bytes as nat) + " bytes\n\n"@,
        None => beat + "Events log: (none)\n\n"@,
    }
}

/// Shows an agent's directory on the hub: its heartbeat where there is one, and the
/// size of its event log.
pub fn show_agent_log(name: &str, heartbeat: Option<&str>, events_bytes: Option<u64>) -> (out: String)
    ensures
        out@ == agent_log(name@, text::opt_view(heartbeat), events_bytes),
{
    let mut out = own("Agent: ");
    out.append(name);
    out.append("\n");
    if let Some(content) = heartbeat {
        out.append("Heartbeat: ");
        out.append(trim_str(content).as_str());
        out.append("\n");
    }
    match events_bytes {
        Some(bytes) => {
            out.append("Events log: ");
            out.append(dec_u64(bytes).as_str());
            out.append(" bytes\n\n");
        },
        None => {
            out.append("Events log: (none)\n\n");
        },
    }
    out
}

/// A list of names, each on a line.
pub open spec fn with_names(acc: Seq<char>, names: Seq<Seq<char>>, n: nat) -> Seq<char>
    decreases n,
{
    if n == 0 {
        acc
    } else {
        with_names(acc, names, (n - 1) as nat) + "  "@ + names[n - 1] + "\n"@
    }
}

/// What is printed where the hub has no directory of the agent.
pub fn no_agent_log(agent: &str, names: &Vec<String>) -> (out: String)
    ensures
        out@ == with_names(
            "No agent '"@ + agent@ + "' found on hub branch.\nAvailable agents:\n"@,
            text::strs(names@),
            names@.len(),
        ),
{
    let mut out = own("No agent '");
    out.append(agent);
    out.append("' found on hub branch.\nAvailable agents:\n");
    let ghost head = out@;
    let mut i: usize = 0;
    while i < names.len()
        invariant
            i <= names@.len(),
            out@ == with_names(head, text::strs(names@), i as nat),
        decreases names@.len() - i,
    {
        out.append("  ");
        out.append(names[i].as_str());
        out.append("\n");
        i = i + 1;
    }
    out
}

// ---------------------------------------------------------------------------
// Stopping
// ---------------------------------------------------------------------------

/// A way to stop an agent.
#[derive(Debug, Clone, Copy, PartialEq, Eq, Structural)]
pub enum StopStep {
    /// Kill its session.
    KillSession,
    /// Send an interrupt to its session.
    Interrupt,
    /// Stop, or kill, its docker container.
    Docker,
    /// Stop, or kill, its podman container.
    Podman,
}

/// How to stop an agent. A session takes precedence over containers; where there is
/// none, the runtimes that are available are tried in turn until one succeeds.
pub open spec fn stop_steps(session_active: bool, force: bool, docker: bool, podman: bool) -> Seq<
    StopStep,
> {
    if session_active {
        seq![
            if force {
                StopStep::KillSession
            } else {
                StopStep::Interrupt
            },
        ]
    } else if docker && podman {
        seq![StopStep::Docker, StopStep::Podman]
    } else if docker {
        seq![StopStep::Docker]
    } else if podman {
        seq![StopStep::Podman]
    } else {
        Seq::empty()
    }
}

/// Plans how to stop an agent.
pub fn plan_stop(session_active: bool, force: bool, docker: bool, podman: bool) -> (r: Vec<StopStep>)
    ensures
        r@ == stop_steps(session_active, force, docker, podman),
{
    let mut steps: Vec<StopStep> = Vec::new();
    if session_active {
        if force {
            steps.push(StopStep::KillSession);
        } else {
            steps.push(StopStep::Interrupt);
        }
        return steps;
    }
    if docker {
        steps.push(StopStep::Docker);
    }
    if podman {
        steps.push(StopStep::Podman);
    }
    steps
}

/// What a runtime is told: to kill the container by force, or to stop it.
pub fn container_verb(force: bool) -> (r: &'static str)
    ensures
        r@ == (if force {
            "kill"@
        } else {
            "stop"@
        }),
{
    if force {
        "kill"
    } else {
        "stop"
    }
}

/// The container of an agent.
pub open spec fn container_name(agent: Seq<char>) -> Seq<char> {
    "crosslink-agent-"@ + agent
}

/// What is printed once a step has succeeded.
pub open spec fn stopped_text(step: StopStep, agent: Seq<char>) -> Seq<char> {
    let session = naming::session_name(naming::worktree_slug(agent));
    match step {
        StopStep::KillSession => "Killed tmux session: "@ + session + "\n"@,
        StopStep::Interrupt => "Sent interrupt to tmux session: "@ + session
            + "\nUse --force to kill immediately.\n"@,
        StopStep::Docker => "Stopped docker container: "@ + container_name(agent) + "\n"@,
        StopStep::Podman => "Stopped podman container: "@ + container_name(agent) + "\n"@,
    }
}

/// Tells that a step has succeeded.
pub fn report_stopped(step: StopStep, agent: &str) -> (out: String)
    requires
        naming::session_fits(naming::worktree_slug(agent@)),
    ensures
        out@ == stopped_text(step, agent@),
{
    let slug = agent_worktree_slug(agent);
    let session = tmux_session_name(slug.as_str());
    let mut out = own(
        match step {
            StopStep::KillSession => "Killed tmux session: ",
            StopStep::Interrupt => "Sent interrupt to tmux session: ",
            StopStep::Docker => "Stopped docker container: ",
            StopStep::Podman => "Stopped podman container: ",
        },
    );
    match step {
        StopStep::KillSession => {
            out.append(session.as_str());
            out.append("\n");
        },
        StopStep::Interrupt => {
            out.append(session.as_str());
            out.append("\nUse --force to kill immediately.\n");
        },
        _ => {
            let mut name = own("crosslink-agent-");
            name.append(agent);
            out.append(name.as_str());
            out.append("\n");
        },
    }
    out
}

/// What is warned of where a step has failed: only a session that could not be killed.
pub fn stop_warning(step: StopStep, complaint: &str) -> (r: Option<String>)
    ensures
        text::opt_str(r) == (if step == StopStep::KillSession {
            Some("Warning: failed to kill session: "@ + text::trim(complaint@))
        } else {
            None
        }),
{
    if step == StopStep::KillSession {
        let mut out = own("Warning: failed to kill session: ");
        out.append(trim_str(complaint).as_str());
        return Some(out);
    }
    None
}

/// What is said where there was no session and no container could be stopped.
pub open spec fn not_stopped(agent: Seq<char>) -> Seq<char> {
    "No running agent found for '"@ + agent + "'. Checked tmux session '"@ + naming::session_name(
        naming::worktree_slug(agent),
    ) + "' and container '"@ + container_name(agent) + "'."@
}

/// Tells that no agent was found to stop.
pub fn nothing_to_stop(agent: &str) -> (out: String)
    requires
        naming::session_fits(naming::worktree_slug(agent@)),
    ensures
        out@ == not_stopped(agent@),
{
    let slug = agent_worktree_slug(agent);
    let mut name = own("crosslink-agent-");
    name.append(agent);
    let mut out = own("No running agent found for '");
    out.append(agent);
    out.append("'. Checked tmux session '");
    out.append(tmux_session_name(slug.as_str()).as_str());
    out.append("' and container '");
    out.append(name.as_str());
    out.append("'.");
    out
}

// ---------------------------------------------------------------------------
// Reports
// ---------------------------------------------------------------------------

/// The errors that precede a report: there is no worktree, or no report file yet.
pub open spec fn no_report(
    agent: Seq<char>,
    worktree: Seq<char>,
    present: bool,
    what: Seq<char>,
    status: Option<Seq<char>>,
) -> Seq<char> {
    if !present {
        "No worktree found for '"@ + agent + "'. Checked: "@ + worktree
    } else {
        what + agent + "'. Agent status: "@ + status_or(status, "still running"@)
    }
}

fn explain_no_report(
    agent: &str,
    worktree_dir: &str,
    present: bool,
    what: &str,
    status: Option<&str>,
) -> (out: String)
    ensures
        out@ == no_report(agent@, worktree_dir@, present, what@, text::opt_view(status)),
{
    if !present {
        let mut out = own("No worktree found for '");
        out.append(agent);
        out.append("'. Checked: ");
        out.append(worktree_dir);
        return out;
    }
    let mut out = own(what);
    out.append(agent);
    out.append("'. Agent status: ");
    out.append(trimmed_or(status, "still running").as_str());
    out
}

/// Display a gap report from an earlier analysis. `plan` is the report file, where
/// there is one.
pub fn show_plan(
    agent: &str,
    worktree_dir: &str,
    present: bool,
    plan: Option<&str>,
    status: Option<&str>,
) -> (r: Result<String, String>)
    ensures
        match r {
            Ok(out) => present && plan is Some && out@ == json::printed(plan->0@),
            Err(message) => (!present || plan is None) && message@ == no_report(
                agent@,
                worktree_dir@,
                present,
                "No gap report found yet for '"@,
                text::opt_view(status),
            ),
        },
{
    match plan {
        Some(content) if present => Ok(json::print(content)),
        _ => Err(
            explain_no_report(agent, worktree_dir, present, "No gap report found yet for '", status),
        ),
    }
}

/// What a report prints: warnings first, then the report.
pub struct Printed {
    pub warnings: Vec<String>,
    pub out: String,
}

/// Whether a report can be shown: it needs no parsing to be shown as JSON, and has to
/// be a report for the other formats.
pub open spec fn shown(
    content: Seq<char>,
    parsed: Option<&KickoffReport>,
    format: ReportFormat,
) -> Option<(Seq<Seq<char>>, Seq<char>)> {
    match format {
        ReportFormat::Json => Some((Seq::empty(), json::printed(content))),
        ReportFormat::Table => match parsed {
            Some(r) => Some((report::report_warnings(*r), report::report_table(*r))),
            None => None,
        },
        ReportFormat::Markdown => match parsed {
            Some(r) => Some((Seq::empty(), report::report_markdown(*r))),
            None => None,
        },
    }
}

/// Display the validation report of an agent. `content` is the report file, where
/// there is one, and `parsed` the report in it, where it holds one.
pub fn show_report(
    agent: &str,
    worktree_dir: &str,
    present: bool,
    content: Option<&str>,
    parsed: Option<&KickoffReport>,
    status: Option<&str>,
    format: ReportFormat,
) -> (r: Result<Printed, String>)
    requires
        format == ReportFormat::Table && parsed is Some ==> report::total_fits(*parsed->0),
    ensures
        match r {
            Ok(printed) => present && content is Some && shown(content->0@, parsed, format) == Some(
                (text::strs(printed.warnings@), printed.out@),
            ),
            Err(message) => if present && content is Some {
                shown(content->0@, parsed, format) is None && message@
                    == "Failed to parse .kickoff-report.json"@
            } else {
                message@ == no_report(
                    agent@,
                    worktree_dir@,
                    present,
                    "No validation report found for '"@,
                    text::opt_view(status),
                )
            },
        },
{
    let file = match content {
        Some(file) => file,
        None => {
            return Err(
                explain_no_report(
                    agent,
                    worktree_dir,
                    present,
                    "No validation report found for '",
                    status,
                ),
            );
        },
    };
    if !present {
        return Err(
            explain_no_report(
                agent,
                worktree_dir,
                present,
                "No validation report found for '",
                status,
            ),
        );
    }
    let none: Vec<String> = Vec::new();
    assert(text::strs(none@) =~= Seq::<Seq<char>>::empty());
    if format == ReportFormat::Json {
        return Ok(Printed { warnings: none, out: json::print(file) });
    }
    match parsed {
        Some(found) => if format == ReportFormat::Table {
            Ok(
                Printed {
                    warnings: validate_kickoff_report(found),
                    out: format_report_table(found),
                },
            )
        } else {
            Ok(Printed { warnings: none, out: format_report_markdown(found) })
        },
        None => Err(own("Failed to parse .kickoff-report.json")),
    }
}

/// Display the reports of all worktrees in a table. There is an error where there is
/// no directory of worktrees, and where there is no report in any of them.
pub fn show_all_reports(has_worktrees: bool, reports: &[(&str, KickoffReport)]) -> (r: Result<
    String,
    String,
>)
    requires
        forall|i: int| 0 <= i < reports@.len() ==> report::total_fits((#[trigger] reports@[i]).1),
        reports@.len() <= u32::MAX,
    ensures
        match r {
            Ok(out) => has_worktrees && reports@.len() > 0 && out@ == report::report_all_table(
                reports@,
            ),
            Err(message) => if !has_worktrees {
                message@ == "No .worktrees directory found"@
            } else {
                reports@.len() == 0 && message@ == "No kickoff reports found in any worktree"@
            },
        },
{
    if !has_worktrees {
        return Err(own("No .worktrees directory found"));
    }
    if reports.len() == 0 {
        return Err(own("No kickoff reports found in any worktree"));
    }
    Ok(format_report_all_table(reports))
}

// ---------------------------------------------------------------------------
// The command line
// ---------------------------------------------------------------------------

/// The format that the flags of the report command ask for. JSON takes precedence.
pub fn report_format(json: bool, markdown: bool) -> (r: ReportFormat)
    ensures
        r == (if json {
            ReportFormat::Json
        } else if markdown {
            ReportFormat::Markdown
        } else {
            ReportFormat::Table
        }),
{
    if json {
        ReportFormat::Json
    } else if markdown {
        ReportFormat::Markdown
    } else {
        ReportFormat::Table
    }
}

/// Whose report is asked for: that of all agents, or of the one that is named.
pub fn report_target(agent: Option<&str>, all: bool) -> (r: Result<Option<String>, String>)
    ensures
        match r {
            Ok(None) => all,
            Ok(Some(name)) => !all && agent is Some && name@ == agent->0@,
            Err(message) => !all && agent is None && message@ == "Agent ID required (or use --all)"@,
        },
{
    if all {
        return Ok(None);
    }
    match agent {
        Some(name) => Ok(Some(own(name))),
        None => Err(own("Agent ID required (or use --all)")),
    }
}

/// What the options of a launch mean.
#[derive(Debug, Clone, Copy, PartialEq, Eq, Structural)]
pub struct RunOptions {
    pub container: ContainerMode,
    pub verify: VerifyLevel,
    pub timeout: u64,
}

/// What is wrong with the options of a launch, if anything is. Where several are
/// wrong, the first is complained of.
pub open spec fn options_error(container: Seq<char>, verify: Seq<char>, timeout: Seq<char>) -> Option<
    Seq<char>,
> {
    if options::container_named(text::lower(container)) is None {
        Some(options::unknown_container(container))
    } else if options::level_named(text::lower(verify)) is None {
        Some(options::unknown_level(verify))
    } else {
        options::duration_error(timeout)
    }
}

/// Reads the options of a launch. The seconds of the timeout must fit in 64 bits.
pub fn parse_run_options(container: &str, verify: &str, timeout: &str) -> (r: Result<
    RunOptions,
    String,
>)
    requires
        options::duration_secs(timeout@) matches Some(n) ==> n <= u64::MAX,
    ensures
        match r {
            Ok(o) => {
                &&& options_error(container@, verify@, timeout@) is None
                &&& options::container_named(text::lower(container@)) == Some(o.container)
                &&& options::level_named(text::lower(verify@)) == Some(o.verify)
                &&& options::duration_secs(timeout@) == Some(o.timeout as nat)
            },
            Err(message) => options_error(container@, verify@, timeout@) == Some(message@),
        },
{
    let c = match parse_container_mode(container) {
        Ok(c) => c,
        Err(e) => {
            return Err(e);
        },
    };
    let v = match parse_verify_level(verify) {
        Ok(v) => v,
        Err(e) => {
            return Err(e);
        },
    };
    match parse_duration(timeout) {
        Ok(t) => Ok(RunOptions { container: c, verify: v, timeout: t }),
        Err(e) => Err(e),
    }
}

// ---------------------------------------------------------------------------
// What is told of agents
// ---------------------------------------------------------------------------

/// Every worktree is listed with what its status file holds; one without such a file is running.
pub proof fn law_every_worktree_is_listed(entries: Seq<WorktreeEntry>, k: int)
    requires
        0 <= k < entries.len(),
    ensures
        entries[k].status matches Some(s) ==> text::contains(
            with_worktrees("Available worktrees:\n"@, entries, entries.len()),
            "  "@ + entries[k].name@ + " — "@ + text::trim(s@) + "\n"@,
        ),
        entries[k].status is None ==> text::contains(
            with_worktrees("Available worktrees:\n"@, entries, entries.len()),
            "  "@ + entries[k].name@ + " — "@ + "running"@ + "\n"@,
        ),
{
    lemma_worktree_listed("Available worktrees:\n"@, entries, entries.len(), k);
}

proof fn lemma_worktree_listed(acc: Seq<char>, entries: Seq<WorktreeEntry>, n: nat, k: int)
    requires
        0 <= k < n <= entries.len(),
    ensures
        entries[k].status matches Some(s) ==> text::contains(
            with_worktrees(acc, entries, n),
            "  "@ + entries[k].name@ + " — "@ + text::trim(s@) + "\n"@,
        ),
        entries[k].status is None ==> text::contains(
            with_worktrees(acc, entries, n),
            "  "@ + entries[k].name@ + " — "@ + "running"@ + "\n"@,
        ),
    decreases n,
{
    broadcast use {text::lemma_contains_self, text::lemma_contains_second};

    let head = with_worktrees(acc, entries, (n - 1) as nat);
    let status = status_or(text::opt_str(entries[n - 1].status), "running"@);
    let line = "  "@ + entries[n - 1].name@ + " — "@ + status + "\n"@;
    text::lemma_regroup(head, "  "@, entries[n - 1].name@, " — "@, status);
    text::lemma_regroup(head, "  "@ + entries[n - 1].name@ + " — "@ + status, "\n"@, head, head);
    assert(with_worktrees(acc, entries, n) == head + line);
    if k < n - 1 {
        lemma_worktree_listed(acc, entries, (n - 1) as nat, k);
        if let Some(s) = entries[k].status {
            text::lemma_contains_first(
                head,
                line,
                "  "@ + entries[k].name@ + " — "@ + text::trim(s@) + "\n"@,
            );
        } else {
            text::lemma_contains_first(
                head,
                line,
                "  "@ + entries[k].name@ + " — "@ + "running"@ + "\n"@,
            );
        }
    }
}

/// A heartbeat is looked for under the agent's own name first.
pub proof fn law_own_heartbeat_comes_first(agent: &str, r: (String, String))
    requires
        call_ensures(heartbeat_names, (agent,), r),
    ensures
        r.0@ == agent@,
        text::has_prefix(r.1@, "driver--"@),
        text::has_suffix(r.1@, naming::worktree_slug(agent@)),
{
    broadcast use {text::lemma_prefix_of_sum, text::lemma_suffix_of_sum};

}

/// The status of an agent tells its name and worktree, what its status file holds, whether its
/// session is active, and when its heart last beat where that is known.
pub proof fn law_status_is_told(
    agent: Seq<char>,
    worktree: Seq<char>,
    status: Option<Seq<char>>,
    session_active: bool,
    heartbeat: Option<Seq<char>>,
)
    ensures
        ({
            let told = status_text(agent, worktree, status, session_active, heartbeat);
            &&& text::contains(told, "Agent:     "@ + agent)
            &&& text::contains(told, "\nWorktree:  "@ + worktree)
            &&& status matches Some(s) ==> text::contains(
                told,
                "\nStatus:    "@ + text::trim(s) + "\n"@,
            )
            &&& status is None ==> text::contains(
                told,
                "\nStatus:    "@ + "running (no status file yet)"@ + "\n"@,
            )
            &&& session_active ==> text::contains(
                told,
                "tmux:      active ("@ + naming::session_name(naming::worktree_slug(agent))
                    + ")\n"@,
            )
            &&& !session_active ==> text::contains(told, "tmux:      no active session\n"@)
            &&& heartbeat matches Some(content) ==> (json_object::text_of(
                json::at(content, "timestamp"@),
            ) matches Some(time) ==> text::contains(told, "Heartbeat: "@ + time + "\n"@))
        }),
{
    broadcast use {
        text::lemma_contains_self,
        text::lemma_contains_first,
        text::lemma_contains_second,
        text::lemma_contains_pair,
        text::lemma_contains_triple,
    };

}

/// The directory of an agent is found exactly where there is one, and it is the first.
pub proof fn law_first_directory_is_found(
    names: &Vec<String>,
    agent: &str,
    r: Option<usize>,
)
    requires
        call_ensures(find_agent_dir, (names, agent), r),
    ensures
        r matches Some(i) ==> i < names@.len() && is_agent_dir(names@[i as int]@, agent@) && (
        forall|j: int| 0 <= j < i ==> !is_agent_dir((#[trigger] names@[j])@, agent@)),
        r is None ==> forall|j: int|
            0 <= j < names@.len() ==> !is_agent_dir((#[trigger] names@[j])@, agent@),
{
    let views = text::strs(names@);
    lemma_first_agent_dir(views, agent@, 0);
    assert forall|j: int| 0 <= j < names@.len() implies views[j] == (#[trigger] names@[j])@ by {}
}

proof fn lemma_first_agent_dir(names: Seq<Seq<char>>, agent: Seq<char>, n: nat)
    ensures
        first_agent_dir(names, agent, n) matches Some(i) ==> n <= i < names.len() && is_agent_dir(
            names[i as int],
            agent,
        ) && (forall|j: int| n <= j < i ==> !is_agent_dir(#[trigger] names[j], agent)),
        first_agent_dir(names, agent, n) is None ==> forall|j: int|
            n <= j < names.len() ==> !is_agent_dir(#[trigger] names[j], agent),
    decreases names.len() - n,
{
    if n < names.len() && !is_agent_dir(names[n as int], agent) {
        lemma_first_agent_dir(names, agent, n + 1);
    }
}

/// An agent's directory is its own, or that of an agent on the same slug; a name without such an
/// ending is no other agent's.
pub proof fn law_directories_belong_to_their_agent(parent: Seq<char>, slug: Seq<char>)
    ensures
        is_agent_dir(slug, slug),
        text::after_last(slug, "--"@) == slug ==> is_agent_dir(parent + "--"@ + slug, slug),
{
    text::lemma_regroup(parent, "--"@, slug, slug, slug);
    text::lemma_suffix_of_sum(parent, "--"@ + slug);
}

/// The log of an agent tells its name, its last heartbeat and how long its event log is.
pub proof fn law_logs_are_told(
    name: Seq<char>,
    heartbeat: Option<Seq<char>>,
    events_bytes: Option<u64>,
)
    ensures
        text::contains(agent_log(name, heartbeat, events_bytes), "Agent: "@ + name + "\n"@),
        heartbeat matches Some(content) ==> text::contains(
            agent_log(name, heartbeat, events_bytes),
            "Heartbeat: "@ + text::trim(content) + "\n"@,
        ),
        events_bytes matches Some(bytes) ==> text::contains(
            agent_log(name, heartbeat, events_bytes),
            "Events log: "@ + text::dec(bytes as nat) + " bytes\n\n"@,
        ),
        events_bytes is None ==> text::contains(
            agent_log(name, heartbeat, events_bytes),
            "Events log: (none)\n\n"@,
        ),
{
    broadcast use {
        text::lemma_contains_self,
        text::lemma_contains_first,
        text::lemma_contains_second,
        text::lemma_contains_triple,
    };

}

/// Where there is no log of an agent, the agent is named, and all that there are.
pub proof fn law_all_agents_are_named(agent: &str, names: &Vec<String>, out: String, k: int)
    requires
        call_ensures(no_agent_log, (agent, names), out),
        0 <= k < names@.len(),
    ensures
        text::contains(out@, "No agent '"@ + agent@),
        text::contains(out@, "  "@ + names@[k]@ + "\n"@),
{
    let head = "No agent '"@ + agent@ + "' found on hub branch.\nAvailable agents:\n"@;
    text::lemma_contains_self("No agent '"@ + agent@);
    text::lemma_contains_first(
        "No agent '"@ + agent@,
        "' found on hub branch.\nAvailable agents:\n"@,
        "No agent '"@ + agent@,
    );
    lemma_named(head, text::strs(names@), names@.len(), k, "No agent '"@ + agent@);
}

proof fn lemma_named(acc: Seq<char>, names: Seq<Seq<char>>, n: nat, k: int, p: Seq<char>)
    requires
        n <= names.len(),
        text::contains(acc, p),
    ensures
        text::contains(with_names(acc, names, n), p),
        0 <= k < n ==> text::contains(with_names(acc, names, n), "  "@ + names[k] + "\n"@),
    decreases n,
{
    broadcast use {text::lemma_contains_first, text::lemma_contains_triple};

    if n > 0 {
        lemma_named(acc, names, (n - 1) as nat, k, p);
    }
}

/// A session that is active is what is stopped, and nothing else: it is killed by force and
/// interrupted without. Where there is none, the containers of just the runtimes that there are
/// are tried.
pub proof fn law_sessions_are_stopped_first(
    session_active: bool,
    force: bool,
    docker: bool,
    podman: bool,
)
    ensures
        ({
            let steps = stop_steps(session_active, force, docker, podman);
            &&& steps.contains(StopStep::KillSession) <==> session_active && force
            &&& steps.contains(StopStep::Interrupt) <==> session_active && !force
            &&& steps.contains(StopStep::Docker) <==> !session_active && docker
            &&& steps.contains(StopStep::Podman) <==> !session_active && podman
            &&& session_active ==> steps.len() == 1
            &&& !session_active && docker ==> steps[0] == StopStep::Docker
        }),
{
    let steps = stop_steps(session_active, force, docker, podman);
    if steps.len() > 0 {
        assert(steps.contains(steps[0]));
    }
    if steps.len() > 1 {
        assert(steps.contains(steps[1]));
    }
}

/// A container is killed by force and stopped without.
pub proof fn law_force_kills(force: bool, r: &'static str)
    requires
        call_ensures(container_verb, (force,), r),
    ensures
        force <==> r@ == "kill"@,
        !force <==> r@ == "stop"@,
{
    reveal_strlit("kill");
    reveal_strlit("stop");
    assert("kill"@[0] != "stop"@[0]);
}

/// What was stopped is told: the session by its name, the container by its runtime and name.
pub proof fn law_stopped_agents_are_told(step: StopStep, agent: Seq<char>)
    ensures
        ({
            let told = stopped_text(step, agent);
            let session = naming::session_name(naming::worktree_slug(agent));
            &&& step == StopStep::KillSession ==> text::contains(
                told,
                "Killed tmux session: "@ + session,
            )
            &&& step == StopStep::Interrupt ==> text::contains(
                told,
                "Sent interrupt to tmux session: "@ + session,
            )
            &&& step == StopStep::Docker ==> text::contains(
                told,
                "Stopped docker container: "@ + ("crosslink-agent-"@ + agent),
            )
            &&& step == StopStep::Podman ==> text::contains(
                told,
                "Stopped podman container: "@ + ("crosslink-agent-"@ + agent),
            )
        }),
{
    broadcast use {text::lemma_contains_self, text::lemma_contains_first};

}

/// Only a session that could not be killed is warned of, with the complaint.
pub proof fn law_failed_kills_are_warned_of(step: StopStep, complaint: &str, r: Option<String>)
    requires
        call_ensures(stop_warning, (step, complaint), r),
    ensures
        r is Some <==> step == StopStep::KillSession,
        r matches Some(warning) ==> text::has_suffix(warning@, text::trim(complaint@)),
{
    broadcast use text::lemma_suffix_of_sum;

}

/// Where nothing could be stopped, the agent is named, with the session and the container that
/// were looked for.
pub proof fn law_what_was_looked_for_is_told(agent: Seq<char>)
    ensures
        text::contains(not_stopped(agent), "No running agent found for '"@ + agent),
        text::contains(
            not_stopped(agent),
            "'. Checked tmux session '"@ + naming::session_name(naming::worktree_slug(agent)),
        ),
        text::contains(
            not_stopped(agent),
            "' and container '"@ + ("crosslink-agent-"@ + agent),
        ),
{
    broadcast use {text::lemma_contains_self, text::lemma_contains_first, text::lemma_contains_pair};

}

/// A gap report is shown exactly where there is a worktree with one. What is missing is told: the
/// worktree that was looked for, or else how the agent is doing.
pub proof fn law_plans_are_shown(
    agent: &str,
    worktree_dir: &str,
    present: bool,
    plan: Option<&str>,
    status: Option<&str>,
    r: Result<String, String>,
)
    requires
        call_ensures(show_plan, (agent, worktree_dir, present, plan, status), r),
    ensures
        r is Ok <==> present && plan is Some,
        r matches Ok(out) ==> out@ == json::printed(plan->0@),
        !present ==> (r matches Err(message) && text::contains(
            message@,
            "No worktree found for '"@ + agent@,
        ) && text::has_suffix(message@, worktree_dir@)),
        present && plan is None ==> (r matches Err(message) && text::contains(
            message@,
            "No gap report found yet for '"@ + agent@,
        ) && (status matches Some(s) ==> text::has_suffix(message@, text::trim(s@))) && (
        status is None ==> text::has_suffix(message@, "still running"@))),
{
    broadcast use {
        text::lemma_contains_self,
        text::lemma_contains_first,
        text::lemma_suffix_of_sum,
    };

}

/// A report is shown exactly where there is a worktree with a report file that can be shown: as
/// JSON whatever it holds, in the other formats where it holds a report. Only the table comes with
/// warnings.
pub proof fn law_reports_are_shown(
    agent: &str,
    worktree_dir: &str,
    present: bool,
    content: Option<&str>,
    parsed: Option<&KickoffReport>,
    status: Option<&str>,
    format: ReportFormat,
    r: Result<Printed, String>,
)
    requires
        call_ensures(
            show_report,
            (agent, worktree_dir, present, content, parsed, status, format),
            r,
        ),
    ensures
        r is Ok <==> present && content is Some && (format == ReportFormat::Json || parsed is Some),
        r matches Ok(printed) ==> {
            &&& format == ReportFormat::Json ==> printed.out@ == json::printed(content->0@)
            &&& format == ReportFormat::Markdown ==> printed.out@ == report::report_markdown(
                *parsed->0,
            )
            &&& format == ReportFormat::Table ==> printed.out@ == report::report_table(*parsed->0)
                && text::strs(printed.warnings@) == report::report_warnings(*parsed->0)
            &&& format != ReportFormat::Table ==> printed.warnings@.len() == 0
        },
        present && content is None ==> (r matches Err(message) && text::contains(
            message@,
            "No validation report found for '"@ + agent@,
        )),
        !present ==> (r matches Err(message) && text::has_suffix(message@, worktree_dir@)),
{
    broadcast use {
        text::lemma_contains_self,
        text::lemma_contains_first,
        text::lemma_suffix_of_sum,
    };

    if let Ok(printed) = r {
        assert(text::strs(printed.warnings@).len() == printed.warnings@.len());
    }
}

/// The reports of all agents are shown exactly where there are some.
pub proof fn law_all_reports_are_shown(
    has_worktrees: bool,
    reports: &[(&str, KickoffReport)],
    r: Result<String, String>,
)
    requires
        call_ensures(show_all_reports, (has_worktrees, reports), r),
    ensures
        r is Ok <==> has_worktrees && reports@.len() > 0,
        r matches Ok(out) ==> out@ == report::report_all_table(reports@),
{
}

/// JSON is shown where it is asked for, Markdown where only that is, and a table otherwise.
pub proof fn law_formats_are_as_asked(json: bool, markdown: bool, r: ReportFormat)
    requires
        call_ensures(report_format, (json, markdown), r),
    ensures
        json <==> r == ReportFormat::Json,
        markdown && !json <==> r == ReportFormat::Markdown,
        !markdown && !json <==> r == ReportFormat::Table,
{
}

/// All reports are shown where that is asked for, else that of the agent that is named; without
/// either there is an error.
pub proof fn law_report_of_the_named_agent_is_shown(
    agent: Option<&str>,
    all: bool,
    r: Result<Option<String>, String>,
)
    requires
        call_ensures(report_target, (agent, all), r),
    ensures
        r is Err <==> !all && agent is None,
        all ==> r == Ok::<Option<String>, String>(None),
        !all && agent is Some ==> (r matches Ok(Some(name)) && name@ == agent->0@),
{
}

/// The options are read exactly where all three are well-formed, and mean what they say.
pub proof fn law_options_are_read(
    container: &str,
    verify: &str,
    timeout: &str,
    r: Result<RunOptions, String>,
)
    requires
        call_ensures(parse_run_options, (container, verify, timeout), r),
    ensures
        r is Ok <==> options::container_named(text::lower(container@)) is Some
            && options::level_named(text::lower(verify@)) is Some && options::duration_error(
            timeout@,
        ) is None,
        r matches Ok(o) ==> options::container_named(text::lower(container@)) == Some(o.container)
            && options::level_named(text::lower(verify@)) == Some(o.verify)
            && options::duration_secs(timeout@) == Some(o.timeout as nat) && o.timeout > 0,
{
}

} // verus!
