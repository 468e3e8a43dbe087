//! Compacting the events of a hub by hand.

use crate::text;
use crate::text::{dec_u64, own};
use vstd::prelude::*;

verus! {

/// What is said where no agent is configured.
pub const NO_AGENT: &'static str = "No agent configured. Run 'crosslink agent init' first.";

/// What is said of a hub in the older layout.
pub const LEGACY_HUB: &'static str = "this hub uses the legacy v2 layout; `crosslink compact` is not available on it. Run `crosslink migrate hub-v3` to migrate to the per-agent-ref layout.";

/// Whether a hub may be compacted: there must be an agent, and the hub must have the
/// current layout.
pub fn check(has_agent: bool, is_v3: bool) -> (r: Result<(), String>)
    ensures
        match r {
            Ok(_) => has_agent && is_v3,
            Err(message) => message@ == (if !has_agent {
                NO_AGENT@
            } else {
                LEGACY_HUB@
            }) && !(has_agent && is_v3),
        },
{
    if !has_agent {
        return Err(own(NO_AGENT));
    }
    if !is_v3 {
        return Err(own(LEGACY_HUB));
    }
    Ok(())
}

/// What a compaction has done.
#[derive(Debug, Clone, Copy, PartialEq, Eq, Structural)]
pub struct CompactionResult {
    pub events_processed: u64,
    pub events_pruned: u64,
    pub checkpoint_pushed: bool,
}

/// What is printed of a compaction.
pub open spec fn result_text(result: CompactionResult) -> Seq<char> {
    if result.events_processed > 0 {
        "Compaction complete (v3).\n  Events processed: "@ + text::dec(
            result.events_processed as nat,
        ) + ", events pruned: "@ + text::dec(result.events_pruned as nat)
            + ", checkpoint pushed: "@ + (if result.checkpoint_pushed {
            "true"@
        } else {
            "false"@
        }) + "\n"@
    } else {
        "Compaction complete (v3).\n  No new events to process.\n"@
    }
}

/// Tells what a compaction has done.
pub fn report(result: &CompactionResult) -> (out: String)
    ensures
        out@ == result_text(*result),
{
    if result.events_processed == 0 {
        return own("Compaction complete (v3).\n  No new events to process.\n");
    }
    let mut out = own("Compaction complete (v3).\n  Events processed: ");
    out.append(dec_u64(result.events_processed).as_str());
    out.append(", events pruned: ");
    out.append(dec_u64(result.events_pruned).as_str());
    out.append(", checkpoint pushed: ");
    out.append(
        if result.checkpoint_pushed {
            "true"
        } else {
            "false"
        },
    );
    out.append("\n");
    out
}

/// A hub is compacted exactly where there is an agent and the layout is the current one. An agent
/// that is missing is complained of first.
pub proof fn law_hubs_are_compacted_by_agents(
    has_agent: bool,
    is_v3: bool,
    r: Result<(), String>,
)
    requires
        call_ensures(check, (has_agent, is_v3), r),
    ensures
        r is Ok <==> has_agent && is_v3,
        !has_agent ==> (r matches Err(message) && message@
            == "No agent configured. Run 'crosslink agent init' first."@),
        has_agent && !is_v3 ==> (r matches Err(message) && message@ == LEGACY_HUB@),
{
}

/// What a compaction has done is told where there was something to do: how many events were
/// processed and pruned, and whether the checkpoint was pushed. Where there was nothing, just that
/// is told.
pub proof fn law_compactions_are_told(result: CompactionResult)
    ensures
        result.events_processed > 0 ==> {
            &&& text::contains(
                result_text(result),
                "Compaction complete (v3).\n  Events processed: "@ + text::dec(
                    result.events_processed as nat,
                ),
            )
            &&& text::contains(
                result_text(result),
                ", events pruned: "@ + text::dec(result.events_pruned as nat),
            )
            &&& result.checkpoint_pushed ==> text::contains(
                result_text(result),
                ", checkpoint pushed: "@ + "true"@,
            )
            &&& !result.checkpoint_pushed ==> text::contains(
                result_text(result),
                ", checkpoint pushed: "@ + "false"@,
            )
        },
        result.events_processed == 0 ==> result_text(result)
            == "Compaction complete (v3).\n  No new events to process.\n"@,
{
    broadcast use {text::lemma_contains_self, text::lemma_contains_first, text::lemma_contains_pair};

}

} // verus!
