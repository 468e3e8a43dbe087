//! The agent command of chainlink, the tracker without signatures.

use crate::commands::agent;
use crate::commands::agent::{push_line, push_locks};
use crate::identity::{AgentConfig, ConfigView};
use crate::text;
use crate::text::own;
use vstd::prelude::*;

verus! {

/// Whether an agent may be configured: only where none is.
pub fn may_init(configured: bool) -> (r: Result<(), String>)
    ensures
        match r {
            Ok(_) => !configured,
            Err(message) => configured && message@
                == "Agent already configured. Delete .chainlink/agent.json to reconfigure."@,
        },
{
    if configured {
        return Err(
            own("Agent already configured. Delete .chainlink/agent.json to reconfigure."),
        );
    }
    Ok(())
}

/// What is printed once an agent is configured.
pub open spec fn initialized_text(c: ConfigView) -> Seq<char> {
    agent::with_line(
        "Agent initialized:\n  ID:      "@ + c.agent_id + "\n  Machine: "@ + c.machine_id + "\n"@,
        "  Description: "@,
        c.description,
    )
}

/// `chainlink agent init`, once the agent is configured.
pub fn init(config: &AgentConfig) -> (out: String)
    ensures
        out@ == initialized_text(config@),
{
    let mut out = own("Agent initialized:\n  ID:      ");
    out.append(config.agent_id.as_str());
    out.append("\n  Machine: ");
    out.append(config.machine_id.as_str());
    out.append("\n");
    push_line(&mut out, "  Description: ", &config.description);
    out
}

/// What is printed of an agent.
pub open spec fn status_text(config: Option<ConfigView>, locks: Option<Seq<Seq<char>>>) -> Seq<char> {
    match config {
        Some(c) => agent::with_locks(
            agent::with_line(
                "Agent: "@ + c.agent_id + "\nMachine: "@ + c.machine_id + "\n"@,
                "Description: "@,
                c.description,
            ),
            locks,
        ),
        None => "No agent configured. Run 'chainlink agent init <id>' first.\n"@,
    }
}

/// `chainlink agent status`. The locks are the names of the issues that the agent
/// holds, where the hub could be read.
pub fn status(config: Option<&AgentConfig>, locks: Option<&Vec<String>>) -> (out: String)
    ensures
        out@ == status_text(agent::opt_config(config), agent::opt_strs(locks)),
{
    let c = match config {
        Some(c) => c,
        None => {
            return own("No agent configured. Run 'chainlink agent init <id>' first.\n");
        },
    };
    let mut out = own("Agent: ");
    out.append(c.agent_id.as_str());
    out.append("\nMachine: ");
    out.append(c.machine_id.as_str());
    out.append("\n");
    push_line(&mut out, "Description: ", &c.description);
    push_locks(&mut out, locks);
    out
}

/// An agent is configured once: only where there is none.
pub proof fn law_agents_are_configured_once(configured: bool, r: Result<(), String>)
    requires
        call_ensures(may_init, (configured,), r),
    ensures
        r is Ok <==> !configured,
{
}

/// What is configured is told: the identity, the machine, and the description where there is one.
pub proof fn law_configuration_is_told(c: ConfigView, locks: Option<Seq<Seq<char>>>)
    ensures
        text::contains(initialized_text(c), "Agent initialized:\n  ID:      "@ + c.agent_id),
        text::contains(initialized_text(c), "\n  Machine: "@ + c.machine_id),
        c.description matches Some(d) ==> text::contains(
            initialized_text(c),
            "  Description: "@ + d,
        ),
        text::contains(status_text(Some(c), locks), "Agent: "@ + c.agent_id),
        text::contains(status_text(Some(c), locks), "\nMachine: "@ + c.machine_id),
        c.description matches Some(d) ==> text::contains(
            status_text(Some(c), locks),
            "Description: "@ + d,
        ),
        locks matches Some(names) ==> (names.len() == 0 ==> text::contains(
            status_text(Some(c), locks),
            "Locks: none\n"@,
        )),
        status_text(None, locks)
            == "No agent configured. Run 'chainlink agent init <id>' first.\n"@,
{
    broadcast use {
        text::lemma_contains_self,
        text::lemma_contains_first,
        text::lemma_contains_second,
        text::lemma_contains_pair,
    };

}

/// Every lock that an agent holds is told.
pub proof fn law_locks_are_told(c: ConfigView, names: Seq<Seq<char>>, k: int)
    requires
        0 <= k < names.len(),
    ensures
        text::contains(status_text(Some(c), Some(names)), names[k]),
{
    agent::law_held_locks_are_told(
        agent::with_line(
            "Agent: "@ + c.agent_id + "\nMachine: "@ + c.machine_id + "\n"@,
            "Description: "@,
            c.description,
        ),
        names,
        k,
    );
}

} // verus!
