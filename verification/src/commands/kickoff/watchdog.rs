//! The commands that run an agent and watch over it.

use crate::assistant::Assistant;
use crate::json;
use crate::json::{inner_flag_at, inner_number_at};
use crate::json_object;
use crate::text;
use crate::text::{dec_u64, own, replace_str};
use vstd::prelude::*;

verus! {

/// Watchdog configuration for detecting and nudging idle agents.
#[derive(Debug, Clone, Copy, PartialEq, Eq, Structural)]
pub struct WatchdogConfig {
    /// Whether the watchdog is enabled.
    pub enabled: bool,
    /// Seconds of heartbeat staleness before nudging.
    pub staleness_secs: u64,
    /// Maximum number of nudges before giving up.
    pub max_nudges: u32,
    /// Seconds between watchdog checks.
    pub check_interval_secs: u64,
    /// Grace period before watchdog starts checking.
    pub grace_period_secs: u64,
}

/// The configuration where nothing is configured.
pub open spec fn default_config() -> WatchdogConfig {
    WatchdogConfig {
        enabled: true,
        staleness_secs: 300,
        max_nudges: 5,
        check_interval_secs: 120,
        grace_period_secs: 300,
    }
}

impl Default for WatchdogConfig {
    fn default() -> (r: Self)
        ensures
            r == default_config(),
    {
        WatchdogConfig {
            enabled: true,
            staleness_secs: 300,
            max_nudges: 5,
            check_interval_secs: 120,
            grace_period_secs: 300,
        }
    }
}

/// A value, or what stands for it where there is none.
pub open spec fn number_or(n: Option<u64>, otherwise: u64) -> u64 {
    match n {
        Some(v) => v,
        None => otherwise,
    }
}

/// The watchdog section of a hook configuration. A key that is absent, or holds no
/// value of its type, leaves the default; of a number of nudges the low 32 bits count.
pub open spec fn watchdog_config(content: Seq<char>) -> WatchdogConfig {
    let default = default_config();
    WatchdogConfig {
        enabled: match json_object::flag_of(json::inner_at(content, "watchdog"@, "enabled"@)) {
            Some(v) => v,
            None => default.enabled,
        },
        staleness_secs: number_or(
            json_object::number_of(json::inner_at(content, "watchdog"@, "staleness_secs"@)),
            default.staleness_secs,
        ),
        max_nudges: low_bits(
            number_or(
                json_object::number_of(json::inner_at(content, "watchdog"@, "max_nudges"@)),
                default.max_nudges as u64,
            ),
        ),
        check_interval_secs: number_or(
            json_object::number_of(json::inner_at(content, "watchdog"@, "check_interval_secs"@)),
            default.check_interval_secs,
        ),
        grace_period_secs: number_or(
            json_object::number_of(json::inner_at(content, "watchdog"@, "grace_period_secs"@)),
            default.grace_period_secs,
        ),
    }
}

/// The low 32 bits of a number.
pub open spec fn low_bits(n: u64) -> u32 {
    (n % 0x1_0000_0000) as u32
}

fn truncate(n: u64) -> (r: u32)
    ensures
        r == low_bits(n),
{
    (n % 0x1_0000_0000) as u32
}

/// Reads the watchdog section of the hook configuration, where there is one.
pub fn read_watchdog_config(hook_config: Option<&str>) -> (cfg: WatchdogConfig)
    ensures
        cfg == match hook_config {
            Some(content) => watchdog_config(content@),
            None => default_config(),
        },
{
    let mut cfg = WatchdogConfig::default();
    if let Some(content) = hook_config {
        if let Some(v) = inner_flag_at(content, "watchdog", "enabled") {
            cfg.enabled = v;
        }
        if let Some(v) = inner_number_at(content, "watchdog", "staleness_secs") {
            cfg.staleness_secs = v;
        }
        if let Some(v) = inner_number_at(content, "watchdog", "max_nudges") {
            cfg.max_nudges = truncate(v);
        }
        if let Some(v) = inner_number_at(content, "watchdog", "check_interval_secs") {
            cfg.check_interval_secs = v;
        }
        if let Some(v) = inner_number_at(content, "watchdog", "grace_period_secs") {
            cfg.grace_period_secs = v;
        }
    }
    cfg
}

// ---------------------------------------------------------------------------
// The script of the watchdog
// ---------------------------------------------------------------------------

pub const SLEEP_GRACE: &'static str = r#"NUDGES=0
sleep "#;

pub const SLEEP_INTERVAL: &'static str = r#"
while true; do
    sleep "#;

pub const STATUS_FILE: &'static str = r#"
    if [ -f ""#;

pub const HAS_SESSION: &'static str = r#"/.kickoff-status" ]; then exit 0; fi
    if ! tmux has-session -t ""#;

pub const HEARTBEAT: &'static str = r#"" 2>/dev/null; then exit 0; fi
    HB=""#;

pub const AGE_LIMIT: &'static str = r#"/.crosslink/.cache/last-heartbeat"
    if [ -f "$HB" ]; then
        LAST=$(stat -c %Y "$HB" 2>/dev/null || stat -f %m "$HB" 2>/dev/null)
        NOW=$(date +%s)
        AGE=$((NOW - LAST))
        if [ "$AGE" -gt "#;

pub const NUDGE_LIMIT: &'static str = r#" ]; then
            if [ "$NUDGES" -ge "#;

pub const NUDGE: &'static str = r#" ]; then exit 1; fi
            NUDGES=$((NUDGES + 1))
            tmux send-keys -t ""#;

pub const SCRIPT_END: &'static str = r#"" "continue working, the task is not yet complete" Enter
        fi
    fi
done
"#;

/// The script of the watchdog. It leaves when the agent has written its status or the
/// session is gone, and gives up after the last nudge.
pub open spec fn watchdog_script(
    session: Seq<char>,
    worktree: Seq<char>,
    cfg: WatchdogConfig,
) -> Seq<char> {
    SLEEP_GRACE@
        + text::dec(cfg.grace_period_secs as nat)
        + SLEEP_INTERVAL@
        + text::dec(cfg.check_interval_secs as nat)
        + STATUS_FILE@
        + worktree
        + HAS_SESSION@
        + session
        + HEARTBEAT@
        + worktree
        + AGE_LIMIT@
        + text::dec(cfg.staleness_secs as nat)
        + NUDGE_LIMIT@
        + text::dec(cfg.max_nudges as nat)
        + NUDGE@
        + session
        + SCRIPT_END@
}

/// Build the watchdog shell script that monitors heartbeat staleness and nudges idle
/// agents by sending "continue" to their session.
pub fn build_watchdog_script(session_name: &str, worktree_dir: &str, cfg: &WatchdogConfig) -> (script:
    String)
    ensures
        script@ == watchdog_script(session_name@, worktree_dir@, *cfg),
{
    let mut script = own(SLEEP_GRACE);
    script.append(dec_u64(cfg.grace_period_secs).as_str());
    script.append(SLEEP_INTERVAL);
    script.append(dec_u64(cfg.check_interval_secs).as_str());
    script.append(STATUS_FILE);
    script.append(worktree_dir);
    script.append(HAS_SESSION);
    script.append(session_name);
    script.append(HEARTBEAT);
    script.append(worktree_dir);
    script.append(AGE_LIMIT);
    script.append(dec_u64(cfg.staleness_secs).as_str());
    script.append(NUDGE_LIMIT);
    script.append(dec_u64(cfg.max_nudges as u64).as_str());
    script.append(NUDGE);
    script.append(session_name);
    script.append(SCRIPT_END);
    script
}

// ---------------------------------------------------------------------------
// The command of the agent
// ---------------------------------------------------------------------------

/// The command that runs an agent on a prompt file.
pub open spec fn assistant_command(
    assistant: Assistant,
    model: Seq<char>,
    allowed_tools: Seq<char>,
    kickoff_file: Seq<char>,
) -> Seq<char> {
    "env -u "@ + assistant.session_variable@ + " "@ + assistant.program@ + " --model "@ + model
        + " --allowedTools '"@ + allowed_tools
        + "' -- \"$(cat "@ + kickoff_file + ")\""@
}

/// The command that runs an agent under a time limit and, where one is configured,
/// inside a sandbox. The sandbox command may name the worktree as `{{worktree}}`.
pub open spec fn agent_command(
    timeout_cmd: Seq<char>,
    timeout_secs: nat,
    command: Seq<char>,
    sandbox: Option<Seq<char>>,
    worktree: Seq<char>,
) -> Seq<char> {
    let limit = timeout_cmd + " "@ + text::dec(timeout_secs) + "s "@;
    match sandbox {
        Some(wrapper) => limit + text::replace(wrapper, "{{worktree}}"@, worktree) + " "@ + command,
        None => limit + command,
    }
}

/// Build the shell command for launching an agent.
pub fn build_agent_command(
    timeout_cmd: &str,
    timeout_secs: u64,
    model: &str,
    allowed_tools: &str,
    kickoff_file: &str,
    sandbox_command: Option<&str>,
    worktree_dir: &str,
    assistant: Assistant,
) -> (out: String)
    ensures
        out@ == agent_command(
            timeout_cmd@,
            timeout_secs as nat,
            assistant_command(assistant, model@, allowed_tools@, kickoff_file@),
            text::opt_view(sandbox_command),
            worktree_dir@,
        ),
{
    let mut started = own("env -u ");
    started.append(assistant.session_variable);
    started.append(" ");
    started.append(assistant.program);
    started.append(" --model ");
    started.append(model);
    started.append(" --allowedTools '");
    started.append(allowed_tools);
    started.append("' -- \"$(cat ");
    started.append(kickoff_file);
    started.append(")\"");
    let mut out = own(timeout_cmd);
    out.append(" ");
    out.append(dec_u64(timeout_secs).as_str());
    out.append("s ");
    if let Some(command) = sandbox_command {
        proof {
            reveal_strlit("{{worktree}}");
        }
        out.append(replace_str(command, "{{worktree}}", worktree_dir).as_str());
        out.append(" ");
    }
    out.append(started.as_str());
    out
}

// ---------------------------------------------------------------------------
// Laws
// ---------------------------------------------------------------------------

/// What is configured counts, and what is not is the default: the watchdog watches.
pub proof fn law_configured_values_count(content: Seq<char>)
    ensures
        ({
            let c = watchdog_config(content);
            let flag = json_object::flag_of(json::inner_at(content, "watchdog"@, "enabled"@));
            let stale = json_object::number_of(
                json::inner_at(content, "watchdog"@, "staleness_secs"@),
            );
            let nudges = json_object::number_of(
                json::inner_at(content, "watchdog"@, "max_nudges"@),
            );
            let interval = json_object::number_of(
                json::inner_at(content, "watchdog"@, "check_interval_secs"@),
            );
            let grace = json_object::number_of(
                json::inner_at(content, "watchdog"@, "grace_period_secs"@),
            );
            &&& flag matches Some(b) ==> c.enabled == b
            &&& flag is None ==> c.enabled
            &&& stale matches Some(n) ==> c.staleness_secs == n
            &&& stale is None ==> c.staleness_secs == 300
            &&& nudges matches Some(n) ==> (n <= u32::MAX ==> c.max_nudges == n)
            &&& nudges is None ==> c.max_nudges == 5
            &&& interval matches Some(n) ==> c.check_interval_secs == n
            &&& interval is None ==> c.check_interval_secs == 120
            &&& grace matches Some(n) ==> c.grace_period_secs == n
            &&& grace is None ==> c.grace_period_secs == 300
        }),
        default_config().enabled,
{
}

/// The script of the watchdog waits out the grace period, looks at the interval for the status
/// file in the worktree and for the session, and nudges that session once the heartbeat is
/// older than the limit, so often and no more.
pub proof fn law_script_watches_the_session(
    session: Seq<char>,
    worktree: Seq<char>,
    cfg: WatchdogConfig,
)
    ensures
        ({
            let script = watchdog_script(session, worktree, cfg);
            &&& text::has_prefix(script, SLEEP_GRACE@ + text::dec(cfg.grace_period_secs as nat))
            &&& text::contains(
                script,
                SLEEP_INTERVAL@ + text::dec(cfg.check_interval_secs as nat) + STATUS_FILE@
                    + worktree + HAS_SESSION@ + session,
            )
            &&& text::contains(script, HEARTBEAT@ + worktree + AGE_LIMIT@ + text::dec(
                cfg.staleness_secs as nat,
            ))
            &&& text::has_suffix(
                script,
                NUDGE_LIMIT@ + text::dec(cfg.max_nudges as nat) + NUDGE@ + session + SCRIPT_END@,
            )
        }),
{
    let a = SLEEP_GRACE@ + text::dec(cfg.grace_period_secs as nat);
    let b = SLEEP_INTERVAL@ + text::dec(cfg.check_interval_secs as nat) + STATUS_FILE@ + worktree
        + HAS_SESSION@ + session;
    let c = HEARTBEAT@ + worktree + AGE_LIMIT@ + text::dec(cfg.staleness_secs as nat);
    let d = NUDGE_LIMIT@ + text::dec(cfg.max_nudges as nat) + NUDGE@ + session + SCRIPT_END@;
    let script = watchdog_script(session, worktree, cfg);
    assert(script =~= a + b + c + d);
    assert(script =~= a + (b + c + d));
    text::lemma_prefix_of_sum(a, b + c + d);
    text::lemma_suffix_of_sum(a + b + c, d);
    text::lemma_contains_self(b);
    text::lemma_contains_self(c);
    text::lemma_contains_second(a, b, b);
    text::lemma_contains_first(a + b, c, b);
    text::lemma_contains_first(a + b + c, d, b);
    text::lemma_contains_second(a + b, c, c);
    text::lemma_contains_first(a + b + c, d, c);
}

/// An agent runs under its time limit, with the model and the tools that it was given, on its
/// prompt, and inside the sandbox where there is one.
pub proof fn law_agents_run_as_asked(
    timeout_cmd: Seq<char>,
    secs: nat,
    assistant: Assistant,
    model: Seq<char>,
    tools: Seq<char>,
    file: Seq<char>,
    sandbox: Option<Seq<char>>,
    worktree: Seq<char>,
)
    ensures
        ({
            let command = assistant_command(assistant, model, tools, file);
            let out = agent_command(timeout_cmd, secs, command, sandbox, worktree);
            &&& text::has_prefix(out, timeout_cmd + " "@ + text::dec(secs) + "s "@)
            &&& text::has_suffix(out, command)
            &&& sandbox matches Some(w) ==> text::has_prefix(
                out,
                timeout_cmd + " "@ + text::dec(secs) + "s "@ + text::replace(
                    w,
                    "{{worktree}}"@,
                    worktree,
                ) + " "@,
            )
            &&& sandbox is None ==> out == timeout_cmd + " "@ + text::dec(secs) + "s "@ + command
            &&& text::contains(command, assistant.program@ + " --model "@ + model)
            &&& text::contains(command, "--allowedTools '"@ + tools + "'"@)
            &&& text::has_suffix(command, "\"$(cat "@ + file + ")\""@)
            &&& text::has_prefix(command, "env -u "@ + assistant.session_variable@ + " "@)
        }),
{
    let command = assistant_command(assistant, model, tools, file);
    let limit = timeout_cmd + " "@ + text::dec(secs) + "s "@;
    match sandbox {
        Some(w) => {
            let inner = text::replace(w, "{{worktree}}"@, worktree);
            text::lemma_prefix_of_sum(limit + inner + " "@, command);
            text::lemma_suffix_of_sum(limit + inner + " "@, command);
            assert(limit + inner + " "@ + command =~= limit + (inner + " "@ + command));
            text::lemma_prefix_of_sum(limit, inner + " "@ + command);
        },
        None => {
            text::lemma_prefix_of_sum(limit, command);
            text::lemma_suffix_of_sum(limit, command);
        },
    }
    reveal_strlit(" --allowedTools '");
    reveal_strlit("--allowedTools '");
    reveal_strlit("' -- \"$(cat ");
    reveal_strlit("'");
    reveal_strlit(" -- ");
    reveal_strlit("\"$(cat ");
    reveal_strlit(" ");
    let a = "env -u "@ + assistant.session_variable@ + " "@;
    let b = assistant.program@ + " --model "@ + model;
    let c = "--allowedTools '"@ + tools + "'"@;
    let d = "\"$(cat "@ + file + ")\""@;
    assert(" --allowedTools '"@ =~= " "@ + "--allowedTools '"@);
    assert("' -- \"$(cat "@ =~= "'"@ + " -- "@ + "\"$(cat "@);
    assert(command =~= a + b + " "@ + c + " -- "@ + d);
    assert(command =~= a + (b + " "@ + c + " -- "@ + d));
    text::lemma_prefix_of_sum(a, b + " "@ + c + " -- "@ + d);
    text::lemma_suffix_of_sum(a + b + " "@ + c + " -- "@, d);
    text::lemma_contains_self(b);
    text::lemma_contains_self(c);
    text::lemma_contains_second(a, b, b);
    text::lemma_contains_first(a + b, " "@, b);
    text::lemma_contains_first(a + b + " "@, c, b);
    text::lemma_contains_first(a + b + " "@ + c, " -- "@, b);
    text::lemma_contains_first(a + b + " "@ + c + " -- "@, d, b);
    text::lemma_contains_second(a + b + " "@, c, c);
    text::lemma_contains_first(a + b + " "@ + c, " -- "@, c);
    text::lemma_contains_first(a + b + " "@ + c + " -- "@, d, c);
}

} // verus!
