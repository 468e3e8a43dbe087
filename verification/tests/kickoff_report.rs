//! What agents report, and how it is shown.

use crosslink::commands::kickoff::report::{
    durations_fit, format_duration, format_report_all_table, format_report_markdown, format_report_table,
    validate_kickoff_report, CriterionVerdict, KickoffReport, PhaseTiming, PhaseTimings,
    ReportSummary,
};

fn sample_report() -> KickoffReport {
    KickoffReport {
        validated_at: "2026-03-03T12:00:00Z".to_string(),
        criteria: vec![
            CriterionVerdict {
                id: "AC-1".to_string(),
                verdict: "pass".to_string(),
                evidence: "test_login passes".to_string(),
            },
            CriterionVerdict {
                id: "AC-2".to_string(),
                verdict: "partial".to_string(),
                evidence: "HTTP only, not WebSocket".to_string(),
            },
            CriterionVerdict {
                id: "AC-3".to_string(),
                verdict: "fail".to_string(),
                evidence: "not implemented".to_string(),
            },
        ],
        summary: ReportSummary {
            total: 3,
            pass: 1,
            fail: 1,
            partial: 1,
            not_applicable: 0,
            needs_clarification: 0,
        },
        schema_version: None,
        agent_id: None,
        issue_id: None,
        status: None,
        started_at: None,
        completed_at: None,
        phases: None,
        unresolved_questions: None,
        commits: None,
        files_changed: None,
    }
}
#[test]
fn test_format_report_table_symbols() {
    let report = sample_report();
    let output = format_report_table(&report);
    assert!(output.contains("\u{2713} AC-1"));
    assert!(output.contains("~ AC-2"));
    assert!(output.contains("\u{2717} AC-3"));
}

#[test]
fn test_format_report_table_summary_line() {
    let report = sample_report();
    let output = format_report_table(&report);
    assert!(output.contains("3 criteria: 1 pass, 1 partial, 1 fail"));
}

#[test]
fn test_format_report_markdown_has_table_header() {
    let report = sample_report();
    let output = format_report_markdown(&report);
    assert!(output.contains("| ID | Verdict | Evidence |"));
    assert!(output.contains("|---|---|---|"));
    assert!(output.contains("| AC-1 |"));
}

#[test]
fn test_validate_kickoff_report_warnings() {
    let report = sample_report();
    let warnings = validate_kickoff_report(&report);
    assert!(warnings.iter().any(|w| w.contains("schema_version")));
    assert!(warnings.iter().any(|w| w.contains("agent_id")));
}

#[test]
fn test_format_duration() {
    assert_eq!(format_duration(30), "30s");
    assert_eq!(format_duration(60), "1m");
    assert_eq!(format_duration(90), "1m 30s");
    assert_eq!(format_duration(3600), "1h");
    assert_eq!(format_duration(5400), "1h 30m");
    assert_eq!(format_duration(7200), "2h");
}

#[test]
fn test_format_report_table_with_phases() {
    let mut report = sample_report();
    report.agent_id = Some("driver--batch-retry".to_string());
    report.issue_id = Some(42);
    report.status = Some("completed".to_string());
    report.phases = Some(PhaseTimings {
        exploration: Some(PhaseTiming {
            duration_s: 120,
            files_read: Some(34),
            ..Default::default()
        }),
        testing: Some(PhaseTiming {
            duration_s: 90,
            tests_run: Some(146),
            tests_passed: Some(146),
            tests_failed: Some(0),
            ..Default::default()
        }),
        ..Default::default()
    });
    let output = format_report_table(&report);
    assert!(output.contains("driver--batch-retry"));
    assert!(output.contains("Issue: #42"));
    assert!(output.contains("Phase Timing:"));
    assert!(output.contains("exploration"));
    assert!(output.contains("34 files read"));
    assert!(output.contains("146/146 passed"));
}

#[test]
fn test_format_report_table_without_phases() {
    let report = sample_report();
    let output = format_report_table(&report);
    assert!(!output.contains("Phase Timing:"));
    assert!(output.contains("Acceptance Criteria:"));
}

#[test]
fn test_format_report_markdown_with_metadata() {
    let mut report = sample_report();
    report.agent_id = Some("driver--test".to_string());
    report.issue_id = Some(10);
    report.status = Some("completed".to_string());
    let output = format_report_markdown(&report);
    assert!(output.contains("**Agent**: driver--test"));
    assert!(output.contains("**Issue**: #10"));
    assert!(output.contains("**Status**: completed"));
    assert!(output.contains("| ID | Verdict | Evidence |"));
}

#[test]
fn test_format_report_all_table() {
    let r1 = KickoffReport {
        validated_at: "2026-03-03T12:00:00Z".to_string(),
        criteria: vec![CriterionVerdict {
            id: "AC-1".to_string(),
            verdict: "pass".to_string(),
            evidence: "ok".to_string(),
        }],
        summary: ReportSummary {
            total: 1,
            pass: 1,
            fail: 0,
            partial: 0,
            not_applicable: 0,
            needs_clarification: 0,
        },
        schema_version: Some(1),
        agent_id: Some("driver--alpha".to_string()),
        issue_id: Some(1),
        status: Some("completed".to_string()),
        started_at: None,
        completed_at: None,
        phases: Some(PhaseTimings {
            testing: Some(PhaseTiming {
                duration_s: 60,
                tests_run: Some(50),
                tests_passed: Some(50),
                ..Default::default()
            }),
            ..Default::default()
        }),
        unresolved_questions: None,
        commits: None,
        files_changed: None,
    };
    let r2 = KickoffReport {
        status: Some("failed".to_string()),
        ..r1.clone()
    };
    let reports = vec![("alpha", r1), ("beta", r2)];
    let output = format_report_all_table(&reports);
    assert!(output.contains("2 agents"));
    assert!(output.contains("alpha"));
    assert!(output.contains("beta"));
    assert!(output.contains("1 completed, 1 failed"));
}

#[test]
fn durations_that_cannot_be_added_are_told() {
    let mut report = sample_report();
    assert!(durations_fit(&report));
    let long = |secs: u64| Some(PhaseTiming { duration_s: secs, ..Default::default() });
    report.phases = Some(PhaseTimings { testing: long(u64::MAX), ..Default::default() });
    assert!(durations_fit(&report));
    report.phases =
        Some(PhaseTimings { testing: long(u64::MAX), review: long(1), ..Default::default() });
    assert!(!durations_fit(&report));
}
