//! Checking the hub for inconsistencies.

use crosslink::commands::integrity_cmd::{
    check_counters, check_hydration, check_layout, check_locks, check_schema, hydration_repaired,
    layout_repaired, locks_repaired, print_all, print_result, print_summary, run, CheckResult,
    CheckStatus, Counters, EntryKind, Holdings, IntegrityCommands, LayoutEntry, LayoutOutcome,
    Outcome, SyncState,
};

#[test]
fn test_check_schema_pass() {
    let result = check_schema(12, 12);
    assert_eq!(result.name, "schema");
    assert!(matches!(result.status, CheckStatus::Pass));
}

#[test]
fn test_check_counters_skipped_no_cache() {
    let (result, _) = check_counters(None, 0, 0, false);
    assert_eq!(result.name, "counters");
    assert!(matches!(result.status, CheckStatus::Skipped(_)));
}

#[test]
fn test_check_counters_pass() {
    let counters = Counters { next_display_id: 1, next_comment_id: 1, next_milestone_id: 1 };
    let (result, _) = check_counters(Some(counters), 0, 0, false);
    assert!(matches!(result.status, CheckStatus::Pass));
}

#[test]
fn test_check_counters_fail_and_repair() {
    let counters = Counters {
        next_display_id: 1, // should be 2
        next_comment_id: 1,
        next_milestone_id: 1,
    };
    // Check without repair — should fail
    let (result, written) = check_counters(Some(counters), 1, 0, false);
    assert!(matches!(result.status, CheckStatus::Fail(_)));
    assert!(written.is_none());

    // Check with repair — should fix
    let (result, written) = check_counters(Some(counters), 1, 0, true);
    assert!(matches!(result.status, CheckStatus::Repaired(_)));

    // Verify counter is now correct
    let fixed = written.unwrap();
    assert_eq!(fixed.next_display_id, 2);
    assert!(matches!(check_counters(Some(fixed), 1, 0, false).0.status, CheckStatus::Pass));
}

#[test]
fn test_check_hydration_skipped_no_cache() {
    match check_hydration(None, false) {
        Outcome::Done(result) => {
            assert_eq!(result.name, "hydration");
            assert!(matches!(result.status, CheckStatus::Skipped(_)));
        }
        Outcome::Repair => panic!("nothing to repair"),
    }
}

#[test]
fn test_check_locks_skipped_no_sync() {
    match check_locks(SyncState::NotConfigured, &vec![], false, false) {
        Outcome::Done(result) => {
            assert_eq!(result.name, "locks");
            assert!(matches!(result.status, CheckStatus::Skipped(_)));
        }
        Outcome::Repair => panic!("nothing to repair"),
    }
}

fn results() -> Vec<CheckResult> {
    vec![
        CheckResult { name: "schema".to_string(), status: CheckStatus::Pass },
        CheckResult { name: "counters".to_string(), status: CheckStatus::Fail("bad".to_string()) },
        CheckResult { name: "locks".to_string(), status: CheckStatus::Skipped("no sync".to_string()) },
    ]
}

#[test]
fn test_print_summary_formatting() {
    assert_eq!(print_summary(&results()), "Integrity: 1 passed, 1 failed, 1 skipped\n");
}

#[test]
fn results_are_printed_line_by_line() {
    let all = print_all(&results());
    for result in results() {
        assert!(all.contains(&print_result(&result)));
    }
    assert!(all.contains("[FAIL]"));
    assert!(all.contains("bad"));
}

#[test]
fn a_wrong_schema_fails() {
    assert!(matches!(check_schema(3, 12).status, CheckStatus::Fail(_)));
}

#[test]
fn hydration_compares_the_hub_with_the_database() {
    let equal = Holdings {
        display_ids: vec![Some(1), None, Some(2)],
        milestone_files: 1,
        legacy_milestones: 0,
        db_issues: 2,
        db_milestones: 1,
    };
    assert!(matches!(
        check_hydration(Some(&equal), false),
        Outcome::Done(CheckResult { status: CheckStatus::Pass, .. })
    ));
    let fewer = Holdings { db_issues: 1, ..equal };
    assert!(matches!(
        check_hydration(Some(&fewer), false),
        Outcome::Done(CheckResult { status: CheckStatus::Fail(_), .. })
    ));
    assert!(matches!(check_hydration(Some(&fewer), true), Outcome::Repair));
    assert!(matches!(hydration_repaired(2, 5).status, CheckStatus::Repaired(_)));
}

#[test]
fn stale_locks_need_an_agent_to_be_released() {
    let stale = vec![(4, "agent-1".to_string())];
    assert!(matches!(check_locks(SyncState::Ready, &stale, true, true), Outcome::Repair));
    assert!(matches!(
        check_locks(SyncState::Ready, &stale, true, false),
        Outcome::Done(CheckResult { status: CheckStatus::Fail(_), .. })
    ));
    assert!(matches!(
        check_locks(SyncState::Ready, &vec![], false, true),
        Outcome::Done(CheckResult { status: CheckStatus::Pass, .. })
    ));
    assert!(matches!(locks_repaired(&vec![true], 1).status, CheckStatus::Repaired(_)));
}

#[test]
fn a_doubled_issue_loses_its_flat_file() {
    let entries = vec![
        LayoutEntry { name: "aaa.json".to_string(), kind: EntryKind::File },
        LayoutEntry { name: "aaa".to_string(), kind: EntryKind::IssueDir },
        LayoutEntry { name: "bbb.json".to_string(), kind: EntryKind::File },
    ];
    match check_layout(Some(&entries), 2, false, true) {
        LayoutOutcome::Repair { remove, migrate, write_version } => {
            assert!(write_version);
            assert_eq!(remove, vec!["aaa"]);
            assert_eq!(migrate, vec!["bbb"]);
        }
        LayoutOutcome::Done(_) => panic!("expected a repair"),
    }
    assert!(matches!(
        check_layout(Some(&entries), 2, true, true),
        LayoutOutcome::Repair { write_version: false, .. }
    ));
    assert!(matches!(
        check_layout(Some(&entries), 2, true, false),
        LayoutOutcome::Done(CheckResult { status: CheckStatus::Fail(_), .. })
    ));
    assert!(matches!(
        layout_repaired(&vec![true], &vec![true]).status,
        CheckStatus::Repaired(_)
    ));
}

#[test]
fn without_a_choice_all_checks_run() {
    assert_eq!(run(None).len(), 5);
    assert_eq!(
        run(Some(&IntegrityCommands::Schema { repair: true })),
        vec![IntegrityCommands::Schema { repair: true }]
    );
}
