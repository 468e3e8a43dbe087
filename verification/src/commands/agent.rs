//! The agent command: giving an agent its identity and letting it join a hub.

use crate::identity;
use crate::identity::{add_key, AgentConfig, ConfigView, Keypair};
use crate::paths;
use crate::paths::join_path;
use crate::text;
use crate::text::{join_strs, own};
use vstd::prelude::*;

pub mod bootstrap;

verus! {

// ---------------------------------------------------------------------------
// The command line
// ---------------------------------------------------------------------------

/// The agent subcommands.
pub enum AgentCommands {
    Init { agent_id: String, description: Option<String>, no_key: bool, force: bool },
    Status,
    Bootstrap {
        repo: String,
        identity: String,
        branch: Option<String>,
        description: Option<String>,
        no_key: bool,
        target: String,
    },
}

/// What an agent subcommand works on.
pub enum AgentTask {
    /// Give the agent of this directory its identity.
    Init { dir: String },
    /// Show the agent of this directory.
    Status { dir: String },
    /// Bring an agent into the target; when that has succeeded, make sure that the hub
    /// of the directory has a place for it.
    Bootstrap { target: String, dir: String },
}

/// Tells what an agent subcommand works on. A bootstrap works on a directory of its
/// own, the others on that of the project.
pub fn run(command: &AgentCommands, crosslink_dir: &str) -> (r: AgentTask)
    ensures
        match command {
            AgentCommands::Init { .. } => (r matches AgentTask::Init { dir } && dir@
                == crosslink_dir@),
            AgentCommands::Status => (r matches AgentTask::Status { dir } && dir@
                == crosslink_dir@),
            AgentCommands::Bootstrap { target, .. } => (r matches AgentTask::Bootstrap {
                target: t,
                dir,
            } && t@ == target@ && dir@ == paths::joined(target@, ".crosslink"@)),
        },
{
    match command {
        AgentCommands::Init { .. } => AgentTask::Init { dir: own(crosslink_dir) },
        AgentCommands::Status => AgentTask::Status { dir: own(crosslink_dir) },
        AgentCommands::Bootstrap { target, .. } => AgentTask::Bootstrap {
            target: own(target.as_str()),
            dir: join_path(target.as_str(), ".crosslink"),
        },
    }
}

// ---------------------------------------------------------------------------
// Init
// ---------------------------------------------------------------------------

/// What is found where an agent is to be configured.
pub enum Existing {
    Nothing,
    Configured,
    Malformed(String),
}

/// `crosslink agent init`: whether the agent may be configured, and what is printed
/// first. An agent that is configured is overwritten only by force; a malformed
/// configuration always is.
pub fn init(existing: &Existing, force: bool) -> (r: Result<Option<String>, String>)
    ensures
        match existing {
            Existing::Nothing => (r matches Ok(say) && say is None),
            Existing::Malformed(e) => (r matches Ok(Some(say)) && say@
                == "Warning: Existing agent.json is malformed ("@ + e@
                + "). Overwriting with new config.\n"@),
            Existing::Configured => if force {
                r matches Ok(Some(say)) && say@
                    == "Warning: Overwriting existing agent configuration (--force).\n"@
            } else {
                r matches Err(message) && message@
                    == "Agent already configured. Use --force to overwrite, or delete .crosslink/agent.json to reconfigure."@
            },
        },
{
    match existing {
        Existing::Nothing => Ok(None),
        Existing::Malformed(e) => {
            let mut say = own("Warning: Existing agent.json is malformed (");
            say.append(e.as_str());
            say.append("). Overwriting with new config.\n");
            Ok(Some(say))
        },
        Existing::Configured => if force {
            Ok(Some(own("Warning: Overwriting existing agent configuration (--force).\n")))
        } else {
            Err(
                own(
                    "Agent already configured. Use --force to overwrite, or delete .crosslink/agent.json to reconfigure.",
                ),
            )
        },
    }
}

/// What came of making a key for an agent.
pub enum KeyOutcome {
    /// No key was wanted.
    Skipped,
    /// The key, and what went wrong when it was published, if anything did.
    Made(Keypair, Option<String>),
    /// No key could be made.
    Failed(String),
}

/// The configuration with the key that was made, if one was.
pub open spec fn keyed(config: ConfigView, agent_id: Seq<char>, outcome: KeyOutcome) -> ConfigView {
    match outcome {
        KeyOutcome::Made(key, _) => identity::with_key(config, agent_id, key@),
        _ => config,
    }
}

/// What is printed on the key.
pub open spec fn key_text(outcome: KeyOutcome) -> Seq<char> {
    match outcome {
        KeyOutcome::Skipped => ""@,
        KeyOutcome::Made(key, published) => {
            let line = "  SSH key: "@ + key.fingerprint@ + "\n"@;
            match published {
                Some(e) => line + "  Note: Could not publish key to hub: "@ + e@
                    + "\n  The driver can manually copy your public key.\n"@,
                None => line,
            }
        },
        KeyOutcome::Failed(e) => "  Warning: Could not generate SSH key: "@ + e@
            + "\n  Signing will be unavailable. Use --no-key to suppress this warning.\n"@,
    }
}

/// A line, where there is something to put on it.
pub open spec fn with_line(acc: Seq<char>, label: Seq<char>, value: Option<Seq<char>>) -> Seq<char> {
    match value {
        Some(v) => acc + label + v + "\n"@,
        None => acc,
    }
}

pub(crate) fn push_line(out: &mut String, label: &str, value: &Option<String>)
    ensures
        final(out)@ == with_line(old(out)@, label@, text::opt_str(*value)),
{
    if let Some(v) = value {
        out.append(label);
        out.append(v.as_str());
        out.append("\n");
    }
}

/// What is printed once an agent is configured.
pub open spec fn initialized_text(acc: Seq<char>, config: ConfigView, agent_id: Seq<char>) -> Seq<
    char,
> {
    let a = acc + "Agent initialized:\n  ID:      "@ + config.agent_id + "\n  Machine: "@
        + config.machine_id + "\n"@;
    let b = with_line(a, "  Description: "@, config.description);
    let c = with_line(b, "  Key:     "@, config.ssh_fingerprint);
    c + "\nAsk your driver to approve this agent with `crosslink trust approve "@ + agent_id + "`\n"@
}

/// The end of `crosslink agent init`: the configuration with its key, and what is
/// printed of both.
pub fn finish_init(config: &mut AgentConfig, agent_id: &str, outcome: &KeyOutcome) -> (out: String)
    ensures
        final(config)@ == keyed(old(config)@, agent_id@, *outcome),
        out@ == initialized_text(key_text(*outcome), final(config)@, agent_id@),
{
    let mut out = String::new();
    match outcome {
        KeyOutcome::Skipped => {
            out.append("");
            assert(out@ =~= ""@);
        },
        KeyOutcome::Made(key, published) => {
            add_key(config, agent_id, key);
            let mut line = own("  SSH key: ");
            line.append(key.fingerprint.as_str());
            line.append("\n");
            if let Some(e) = published {
                line.append("  Note: Could not publish key to hub: ");
                line.append(e.as_str());
                line.append("\n  The driver can manually copy your public key.\n");
            }
            out = line;
        },
        KeyOutcome::Failed(e) => {
            let mut line = own("  Warning: Could not generate SSH key: ");
            line.append(e.as_str());
            line.append(
                "\n  Signing will be unavailable. Use --no-key to suppress this warning.\n",
            );
            out = line;
        },
    }
    out.append("Agent initialized:\n  ID:      ");
    out.append(config.agent_id.as_str());
    out.append("\n  Machine: ");
    out.append(config.machine_id.as_str());
    out.append("\n");
    push_line(&mut out, "  Description: ", &config.description);
    push_line(&mut out, "  Key:     ", &config.ssh_fingerprint);
    out.append("\nAsk your driver to approve this agent with `crosslink trust approve ");
    out.append(agent_id);
    out.append("`\n");
    out
}

// ---------------------------------------------------------------------------
// Status
// ---------------------------------------------------------------------------

/// What is printed of the locks that an agent holds, where they could be read.
pub open spec fn with_locks(acc: Seq<char>, locks: Option<Seq<Seq<char>>>) -> Seq<char> {
    match locks {
        Some(names) => if names.len() == 0 {
            acc + "Locks: none\n"@
        } else {
            acc + "Locks: "@ + text::join(names, ", "@) + "\n"@
        },
        None => acc,
    }
}

/// The views of an optional list of strings.
pub open spec fn opt_strs(v: Option<&Vec<String>>) -> Option<Seq<Seq<char>>> {
    match v {
        Some(list) => Some(text::strs(list@)),
        None => None,
    }
}

pub(crate) fn push_locks(out: &mut String, locks: Option<&Vec<String>>)
    ensures
        final(out)@ == with_locks(old(out)@, opt_strs(locks)),
{
    if let Some(names) = locks {
        assert(text::strs(names@).len() == names@.len());
        if names.len() == 0 {
            out.append("Locks: none\n");
        } else {
            out.append("Locks: ");
            out.append(join_strs(names, ", ").as_str());
            out.append("\n");
        }
    }
}

/// What is printed of an agent.
pub open spec fn status_text(config: Option<ConfigView>, locks: Option<Seq<Seq<char>>>) -> Seq<char> {
    match config {
        Some(c) => {
            let a = "Agent: "@ + c.agent_id + "\nMachine: "@ + c.machine_id + "\n"@;
            let b = with_line(a, "Description: "@, c.description);
            let d = match c.ssh_fingerprint {
                Some(fp) => b + "SSH key: "@ + fp + "\n"@,
                None => b + "SSH key: none (signing disabled)\n"@,
            };
            with_locks(d, locks)
        },
        None => "No agent configured. Run 'crosslink agent init <id>' first.\n"@,
    }
}

/// The model of an optional configuration.
pub open spec fn opt_config(config: Option<&AgentConfig>) -> Option<ConfigView> {
    match config {
        Some(c) => Some(c@),
        None => None,
    }
}

/// `crosslink agent status`. The locks are the names of the issues that the agent
/// holds, where the hub could be read.
pub fn status(config: Option<&AgentConfig>, locks: Option<&Vec<String>>) -> (out: String)
    ensures
        out@ == status_text(opt_config(config), opt_strs(locks)),
{
    let c = match config {
        Some(c) => c,
        None => {
            return own("No agent configured. Run 'crosslink agent init <id>' first.\n");
        },
    };
    let mut out = own("Agent: ");
    out.append(c.agent_id.as_str());
    out.append("\nMachine: ");
    out.append(c.machine_id.as_str());
    out.append("\n");
    push_line(&mut out, "Description: ", &c.description);
    match &c.ssh_fingerprint {
        Some(fp) => {
            out.append("SSH key: ");
            out.append(fp.as_str());
            out.append("\n");
        },
        None => {
            out.append("SSH key: none (signing disabled)\n");
        },
    }
    push_locks(&mut out, locks);
    out
}

// ---------------------------------------------------------------------------
// The identity of a launched agent
// ---------------------------------------------------------------------------

/// Whether a launched agent still has to be configured in its worktree.
pub fn needs_identity(has_crosslink_dir: bool, configured: bool) -> (r: bool)
    ensures
        r == (has_crosslink_dir && !configured),
{
    has_crosslink_dir && !configured
}

/// What is warned of where the key of a launched agent could not be published.
pub fn publish_warning(agent_id: &str, error: &str) -> (r: String)
    ensures
        r@ == "Warning: Could not publish key for agent '"@ + agent_id@ + "': "@ + error@
            + "\nKey will be auto-published on next `crosslink sync`.\n"@,
{
    let mut out = own("Warning: Could not publish key for agent '");
    out.append(agent_id);
    out.append("': ");
    out.append(error);
    out.append("\nKey will be auto-published on next `crosslink sync`.\n");
    out
}

// ---------------------------------------------------------------------------
// What agents are told
// ---------------------------------------------------------------------------

/// A subcommand works on the project's directory, but for a bootstrap, which works on a directory
/// of its own inside its target.
pub proof fn law_commands_work_where_they_should(
    command: &AgentCommands,
    crosslink_dir: &str,
    r: AgentTask,
)
    requires
        call_ensures(run, (command, crosslink_dir), r),
    ensures
        command is Init <==> r is Init,
        command is Status <==> r is Status,
        command is Bootstrap <==> r is Bootstrap,
        r matches AgentTask::Init { dir } ==> dir@ == crosslink_dir@,
        r matches AgentTask::Status { dir } ==> dir@ == crosslink_dir@,
        r matches AgentTask::Bootstrap { target, dir } ==> target@ == command->target@
            && text::has_prefix(dir@, target@) && text::has_suffix(dir@, ".crosslink"@),
{
    broadcast use {text::lemma_prefix_of_sum, text::lemma_suffix_of_sum};

    reveal_strlit(".crosslink");
    if let AgentTask::Bootstrap { target, dir } = r {
        if target@.len() > 0 {
            paths::law_paths_lead_on(target@, ".crosslink"@);
        } else {
            assert(dir@ == ".crosslink"@);
            assert(dir@.take(0) =~= target@);
            assert(dir@.skip(0) =~= ".crosslink"@);
        }
    }
}

/// An identity is overwritten by force, or where it cannot be read, and never in silence. Where
/// there is none, nothing is said.
pub proof fn law_identities_are_not_overwritten(
    existing: &Existing,
    force: bool,
    r: Result<Option<String>, String>,
)
    requires
        call_ensures(init, (existing, force), r),
    ensures
        r is Err <==> *existing is Configured && !force,
        r matches Ok(say) ==> (say is None <==> *existing is Nothing),
        *existing matches Existing::Malformed(e) ==> (r matches Ok(Some(say)) && text::contains(
            say@,
            e@,
        )),
{
    broadcast use {
        text::lemma_contains_self,
        text::lemma_contains_first,
        text::lemma_contains_second,
    };

}

/// A key that was made becomes part of the identity; where none was made, the identity stays as it
/// is. Nothing else of it changes either way.
pub proof fn law_only_keys_are_added(config: ConfigView, agent_id: Seq<char>, outcome: KeyOutcome)
    ensures
        !(outcome is Made) ==> keyed(config, agent_id, outcome) == config,
        keyed(config, agent_id, outcome).agent_id == config.agent_id,
        keyed(config, agent_id, outcome).machine_id == config.machine_id,
        keyed(config, agent_id, outcome).description == config.description,
        outcome matches KeyOutcome::Made(key, _) ==> keyed(
            config,
            agent_id,
            outcome,
        ).ssh_fingerprint == Some(key.fingerprint@),
{
}

/// What came of the key is told, and what went wrong with it; where no key was wanted, nothing.
pub proof fn law_keys_are_told(outcome: KeyOutcome)
    ensures
        outcome is Skipped ==> key_text(outcome) == ""@,
        outcome matches KeyOutcome::Made(key, published) ==> {
            &&& text::contains(key_text(outcome), "  SSH key: "@ + key.fingerprint@)
            &&& published matches Some(e) ==> text::contains(
                key_text(outcome),
                "  Note: Could not publish key to hub: "@ + e@,
            )
            &&& published is None ==> key_text(outcome) == "  SSH key: "@ + key.fingerprint@
                + "\n"@
        },
        outcome matches KeyOutcome::Failed(e) ==> text::contains(
            key_text(outcome),
            "  Warning: Could not generate SSH key: "@ + e@,
        ),
{
    broadcast use {text::lemma_contains_self, text::lemma_contains_first, text::lemma_contains_pair};

}

/// A new identity is told behind what was said of its key, with how it is approved.
pub proof fn law_identities_are_told(acc: Seq<char>, config: ConfigView, agent_id: Seq<char>)
    ensures
        text::contains(initialized_text(acc, config, agent_id), acc),
        text::contains(
            initialized_text(acc, config, agent_id),
            "Agent initialized:\n  ID:      "@ + config.agent_id,
        ),
        text::contains(
            initialized_text(acc, config, agent_id),
            "\n  Machine: "@ + config.machine_id,
        ),
        config.description matches Some(d) ==> text::contains(
            initialized_text(acc, config, agent_id),
            "  Description: "@ + d,
        ),
        config.ssh_fingerprint matches Some(fp) ==> text::contains(
            initialized_text(acc, config, agent_id),
            "  Key:     "@ + fp,
        ),
        text::contains(
            initialized_text(acc, config, agent_id),
            "\nAsk your driver to approve this agent with `crosslink trust approve "@ + agent_id
                + "`\n"@,
        ),
{
    broadcast use {
        text::lemma_contains_self,
        text::lemma_contains_first,
        text::lemma_contains_pair,
        text::lemma_contains_triple,
    };

}

/// Every lock that is held is told.
pub proof fn law_held_locks_are_told(acc: Seq<char>, names: Seq<Seq<char>>, k: int)
    requires
        0 <= k < names.len(),
    ensures
        text::contains(with_locks(acc, Some(names)), names[k]),
        text::contains(with_locks(acc, Some(names)), acc),
{
    broadcast use {
        text::lemma_contains_self,
        text::lemma_contains_first,
        text::lemma_contains_second,
    };

    text::law_joined_text_holds_its_parts(names, ", "@, k);
}

/// The status tells who the agent is, which key it signs with, and whether it holds locks.
pub proof fn law_status_tells_the_agent(c: ConfigView, locks: Option<Seq<Seq<char>>>)
    ensures
        text::contains(status_text(Some(c), locks), "Agent: "@ + c.agent_id),
        text::contains(status_text(Some(c), locks), "\nMachine: "@ + c.machine_id),
        c.description matches Some(d) ==> text::contains(
            status_text(Some(c), locks),
            "Description: "@ + d,
        ),
        c.ssh_fingerprint matches Some(fp) ==> text::contains(
            status_text(Some(c), locks),
            "SSH key: "@ + fp,
        ),
        c.ssh_fingerprint is None ==> text::contains(
            status_text(Some(c), locks),
            "SSH key: none (signing disabled)\n"@,
        ),
        locks matches Some(names) ==> (names.len() == 0 ==> text::contains(
            status_text(Some(c), locks),
            "Locks: none\n"@,
        )),
        status_text(None, locks)
            == "No agent configured. Run 'crosslink agent init <id>' first.\n"@,
{
    broadcast use {
        text::lemma_contains_self,
        text::lemma_contains_first,
        text::lemma_contains_second,
        text::lemma_contains_pair,
    };

}

/// The status tells every lock that the agent holds.
pub proof fn law_status_tells_the_locks(c: ConfigView, names: Seq<Seq<char>>, k: int)
    requires
        0 <= k < names.len(),
    ensures
        text::contains(status_text(Some(c), Some(names)), names[k]),
{
    let a = "Agent: "@ + c.agent_id + "\nMachine: "@ + c.machine_id + "\n"@;
    let b = with_line(a, "Description: "@, c.description);
    let d = match c.ssh_fingerprint {
        Some(fp) => b + "SSH key: "@ + fp + "\n"@,
        None => b + "SSH key: none (signing disabled)\n"@,
    };
    law_held_locks_are_told(d, names, k);
}

/// A launched agent gets an identity where it can have one and has none yet.
pub proof fn law_launched_agents_get_an_identity(has_dir: bool, configured: bool, r: bool)
    requires
        call_ensures(needs_identity, (has_dir, configured), r),
    ensures
        configured ==> !r,
        !has_dir ==> !r,
        has_dir && !configured ==> r,
{
}

/// A warning on a key that was not published names the agent and what went wrong.
pub proof fn law_unpublished_keys_are_warned_of(agent_id: &str, error: &str, r: String)
    requires
        call_ensures(publish_warning, (agent_id, error), r),
    ensures
        text::contains(r@, "Warning: Could not publish key for agent '"@ + agent_id@),
        text::contains(r@, "': "@ + error@),
{
    broadcast use {
        text::lemma_contains_self,
        text::lemma_contains_first,
        text::lemma_contains_second,
        text::lemma_contains_pair,
    };

}

} // verus!
