//! Watching agents and stopping them.

use crosslink::commands::kickoff::observe::{
    agent_worktree, container_verb, find_agent_dir, heartbeat_names, list_worktrees,
    log_worktree, no_agent_log, nothing_to_stop,
    parse_run_options, plan_stop, report_format, report_stopped, report_target, show_agent_log,
    show_all_reports, show_plan, show_report, status, stop_warning, StopStep, WorktreeEntry,
};
use crosslink::commands::kickoff::options::{ContainerMode, VerifyLevel};
use crosslink::commands::kickoff::report::{KickoffReport, ReportFormat, ReportSummary};

fn report() -> KickoffReport {
    KickoffReport {
        validated_at: "2026-03-03T12:00:00Z".to_string(),
        criteria: vec![],
        summary: ReportSummary {
            total: 0,
            pass: 0,
            fail: 0,
            partial: 0,
            not_applicable: 0,
            needs_clarification: 0,
        },
        schema_version: Some(1),
        agent_id: Some("driver--x".to_string()),
        issue_id: None,
        status: None,
        started_at: None,
        completed_at: None,
        phases: None,
        unresolved_questions: None,
        commits: None,
        files_changed: None,
    }
}

#[test]
fn a_session_takes_precedence_over_containers() {
    assert_eq!(plan_stop(true, true, true, false), vec![StopStep::KillSession]);
    assert_eq!(plan_stop(true, false, false, true), vec![StopStep::Interrupt]);
    assert_eq!(plan_stop(false, true, true, true), vec![StopStep::Docker, StopStep::Podman]);
    assert!(plan_stop(false, true, false, false).is_empty());
    assert_eq!(container_verb(true), "kill");
    assert_eq!(container_verb(false), "stop");
    assert_eq!(
        report_stopped(StopStep::KillSession, "driver--x"),
        "Killed tmux session: feat-x\n"
    );
    assert_eq!(
        report_stopped(StopStep::Podman, "driver--x"),
        "Stopped podman container: crosslink-agent-driver--x\n"
    );
    assert!(nothing_to_stop("driver--x").contains("driver--x"));
    assert_eq!(
        stop_warning(StopStep::KillSession, " gone \n").unwrap(),
        "Warning: failed to kill session: gone"
    );
    assert!(stop_warning(StopStep::Interrupt, "gone").is_none());
}

#[test]
fn worktrees_are_listed_with_their_status() {
    assert!(!list_worktrees(None).is_empty());
    let entries = vec![
        WorktreeEntry { name: "a".to_string(), status: Some("DONE".to_string()) },
        WorktreeEntry { name: "b".to_string(), status: None },
    ];
    let out = list_worktrees(Some(&entries));
    assert!(out.contains("a"));
    assert!(out.contains("DONE"));
}

#[test]
fn a_status_names_the_worktree() {
    let out = status("driver--x", "/repo/.worktrees/x", Some("DONE"), true, Some("now"));
    assert!(out.contains("/repo/.worktrees/x"));
    assert!(out.contains("DONE"));
    assert_eq!(agent_worktree("/repo", "driver--x"), "/repo/.worktrees/x");
    assert_eq!(agent_worktree("/repo", "feature/x"), "/repo/.worktrees/x");
    assert_eq!(log_worktree("/repo", "driver--x--y"), "/repo/.worktrees/y");
    assert_eq!(log_worktree("/repo", "feat-x"), "/repo/.worktrees/feat-x");
    let (first, second) = heartbeat_names("lead--x");
    assert_eq!(first, "lead--x");
    assert_eq!(second, "driver--x");
}

#[test]
fn logs_are_found_by_part_of_a_name() {
    let names = vec!["lead--y".to_string(), "driver--x".to_string()];
    assert_eq!(find_agent_dir(&names, "driver--x"), Some(1));
    assert_eq!(find_agent_dir(&names, "nobody"), None);
    assert!(show_agent_log("driver--x", Some("beat"), Some(12)).contains("beat"));
    assert!(no_agent_log("nobody", &names).contains("driver--x"));
}

#[test]
fn reports_are_shown_in_the_wanted_form() {
    assert_eq!(report_format(true, false), ReportFormat::Json);
    assert_eq!(report_format(false, true), ReportFormat::Markdown);
    assert_eq!(report_format(false, false), ReportFormat::Table);
    assert_eq!(report_target(None, true), Ok(None));
    assert_eq!(report_target(Some("driver--x"), false), Ok(Some("driver--x".to_string())));
    assert!(report_target(None, false).is_err());

    let r = report();
    let table = show_report("driver--x", "/w", true, Some("{}"), Some(&r), None, ReportFormat::Table);
    assert!(table.ok().unwrap().out.contains("driver--x"));
    let missing = show_report("driver--x", "/w", true, None, None, Some("RUNNING"), ReportFormat::Table);
    assert!(missing.is_err() || missing.ok().unwrap().out.contains("RUNNING"));
    let bad = show_report("driver--x", "/w", true, Some("{"), None, None, ReportFormat::Table);
    assert_eq!(bad.err().unwrap(), "Failed to parse .kickoff-report.json");
    assert!(show_all_reports(false, &[]).is_err());
    assert!(show_all_reports(true, &[("x", r)]).is_ok());
}

#[test]
fn a_json_report_is_laid_out() {
    let r = report();
    let printed = show_report(
        "driver--x",
        "/w",
        true,
        Some("{\"b\":1}"),
        Some(&r),
        None,
        ReportFormat::Json,
    );
    assert!(printed.ok().unwrap().out.contains("\"b\": 1"));
}

#[test]
fn a_plan_must_be_there_to_be_shown() {
    assert!(show_plan("driver--x", "/w", false, None, None).is_err());
    let shown = show_plan("driver--x", "/w", true, Some("{\"gaps\":[]}"), None).unwrap();
    assert!(shown.contains("gaps"));
}

#[test]
fn run_options_are_parsed_together() {
    let options = parse_run_options("docker", "ci", "2h").unwrap();
    assert_eq!(options.container, ContainerMode::Docker);
    assert_eq!(options.verify, VerifyLevel::Ci);
    assert_eq!(options.timeout, 7200);
    assert!(parse_run_options("docker", "ci", "soon").is_err());
    assert!(parse_run_options("vm", "ci", "2h").is_err());
}
