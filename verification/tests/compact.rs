//! Compacting the hub.

use crosslink::commands::compact::{check, report, CompactionResult};

#[test]
fn compact_on_v2_hub_refuses_with_migrate_prompt() {
    let err = check(true, false).expect_err("compact must refuse on a v2 hub");
    assert!(
        err.contains("migrate hub-v3"),
        "refusal must point at `crosslink migrate hub-v3`; got: {err}"
    );
}

#[test]
fn compacting_needs_an_agent() {
    assert!(check(false, true).unwrap_err().contains("No agent configured"));
    assert!(check(true, true).is_ok());
}

#[test]
fn results_are_counted() {
    let none = CompactionResult { events_processed: 0, events_pruned: 0, checkpoint_pushed: false };
    assert_eq!(report(&none), "Compaction complete (v3).\n  No new events to process.\n");
    let some = CompactionResult { events_processed: 12, events_pruned: 3, checkpoint_pushed: true };
    assert_eq!(
        report(&some),
        "Compaction complete (v3).\n  Events processed: 12, events pruned: 3, checkpoint pushed: true\n"
    );
}
