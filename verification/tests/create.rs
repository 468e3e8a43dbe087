//! Creating issues.

use crosslink::commands::create::{
    get_template, list_templates, report_claim, report_created, report_subissue, report_work, run,
    run_subissue, template_at, validate_priority, ClaimResult, CreateOpts, SessionOutcome,
    TEMPLATES,
};

fn opts(labels: &Vec<String>) -> CreateOpts<'_> {
    CreateOpts { labels, work: false, quiet: false, crosslink_dir: None, defer_id: false }
}

#[test]
fn test_validate_priority_valid() {
    assert!(validate_priority("low"));
    assert!(validate_priority("medium"));
    assert!(validate_priority("high"));
    assert!(validate_priority("critical"));
}

#[test]
fn test_validate_priority_invalid() {
    assert!(!validate_priority(""));
    assert!(!validate_priority("urgent"));
    assert!(!validate_priority("LOW")); // Case sensitive
    assert!(!validate_priority("MEDIUM"));
    assert!(!validate_priority("High"));
    assert!(!validate_priority("CRITICAL"));
    assert!(!validate_priority(" medium"));
    assert!(!validate_priority("medium "));
    assert!(!validate_priority("medium\n"));
}

#[test]
fn test_validate_priority_malicious() {
    assert!(!validate_priority("'; DROP TABLE issues; --"));
    assert!(!validate_priority("high\0medium"));
    assert!(!validate_priority("medium; DELETE FROM issues"));
    assert!(!validate_priority("<script>alert('xss')</script>"));
}

#[test]
fn test_get_template_exists() {
    let bug = get_template("bug");
    assert!(bug.is_some());
    let template = bug.unwrap();
    assert_eq!(template.name, "bug");
    assert_eq!(template.priority, "high");
    assert_eq!(template.label, "bug");
    assert!(template.description_prefix.is_some());
}

#[test]
fn test_get_template_not_found() {
    assert!(get_template("nonexistent").is_none());
    assert!(get_template("").is_none());
    assert!(get_template("Bug").is_none()); // Case sensitive
    assert!(get_template("BUG").is_none());
}

#[test]
fn test_list_templates() {
    let templates = list_templates();
    assert!(templates.contains(&"bug"));
    assert!(templates.contains(&"feature"));
    assert!(templates.contains(&"refactor"));
    assert!(templates.contains(&"research"));
    assert!(templates.contains(&"audit"));
    assert!(templates.contains(&"continuation"));
    assert!(templates.contains(&"investigation"));
    assert_eq!(templates.len(), 7);
}

#[test]
fn test_template_fields() {
    // Verify all templates have required fields
    for i in 0..TEMPLATES {
        let template = template_at(i);
        assert!(!template.name.is_empty());
        assert!(validate_priority(template.priority));
        assert!(!template.label.is_empty());
    }
}

#[test]
fn test_template_bug_description_prefix() {
    let template = get_template("bug").unwrap();
    let prefix = template.description_prefix.unwrap();
    assert!(prefix.contains("Steps to reproduce"));
    assert!(prefix.contains("Expected"));
    assert!(prefix.contains("Actual"));
}

#[test]
fn test_template_feature_description_prefix() {
    let template = get_template("feature").unwrap();
    let prefix = template.description_prefix.unwrap();
    assert!(prefix.contains("Goal"));
    assert!(prefix.contains("Acceptance criteria"));
}

#[test]
fn test_run_creates_issue() {
    let labels = vec![];
    let issue = run("Test issue", None, "medium", None, &opts(&labels)).unwrap();
    assert_eq!(issue.title, "Test issue");
    assert_eq!(issue.priority, "medium");
    assert!(issue.labels.is_empty());
}

#[test]
fn test_run_with_template_applies_label() {
    let labels = vec![];
    let issue = run("A bug", None, "medium", Some("bug"), &opts(&labels)).unwrap();
    assert!(issue.labels.contains(&"bug".to_string()));
}

#[test]
fn test_run_with_user_labels() {
    let labels = vec!["urgent".to_string(), "backend".to_string()];
    let issue = run("Labeled issue", None, "high", None, &opts(&labels)).unwrap();
    assert_eq!(issue.labels.len(), 2);
    assert!(issue.labels.contains(&"urgent".to_string()));
    assert!(issue.labels.contains(&"backend".to_string()));
}

#[test]
fn test_run_subissue_creates_child() {
    let labels = vec![];
    let child = run_subissue(true, "#1", "Child task", None, "medium", &opts(&labels)).unwrap();
    assert_eq!(child.title, "Child task");
}

#[test]
fn test_run_invalid_priority_fails() {
    let labels = vec![];
    let result = run("Bad priority", None, "urgent", None, &opts(&labels));
    assert!(result.is_err());
    assert!(result.unwrap_err().contains("Invalid priority"));
}

#[test]
fn a_template_raises_only_the_default_priority() {
    let labels = vec![];
    assert_eq!(run("t", None, "medium", Some("bug"), &opts(&labels)).unwrap().priority, "high");
    assert_eq!(run("t", None, "low", Some("bug"), &opts(&labels)).unwrap().priority, "low");
}

#[test]
fn unknown_templates_are_refused() {
    let labels = vec![];
    let error = run("t", None, "medium", Some("nope"), &opts(&labels)).unwrap_err();
    assert!(error.contains("Unknown template 'nope'"));
    assert!(error.contains("bug"));
}

#[test]
fn a_child_needs_its_parent() {
    let labels = vec![];
    let error = run_subissue(false, "#9", "Child", None, "medium", &opts(&labels)).unwrap_err();
    assert!(error.contains("#9"));
    assert!(error.contains("not found"));
}

#[test]
fn a_quiet_report_is_the_number() {
    let labels = vec![];
    let mut quiet = opts(&labels);
    quiet.quiet = true;
    assert_eq!(report_created(7, "#7", None, &quiet), "7\n");
    assert_eq!(report_subissue(7, "#7", "#1", true), "7\n");
}

#[test]
fn a_contended_claim_is_no_fresh_claim() {
    let claim = ClaimResult::Contended { winner_agent_id: "other".to_string() };
    let report = report_claim(&claim, "#3", false);
    assert!(!report.fresh);
    assert!(report.warning.unwrap().contains("other"));
    assert!(report_claim(&ClaimResult::Claimed, "#3", false).fresh);
    assert!(!report_claim(&ClaimResult::AlreadyHeld, "#3", false).fresh);
}

#[test]
fn a_fresh_claim_is_released_where_the_work_cannot_begin() {
    let failed = report_work(&SessionOutcome::Failed("db".to_string()), true, true, "#3", "T", false);
    assert!(failed.release);
    let held = report_work(&SessionOutcome::Failed("db".to_string()), false, true, "#3", "T", false);
    assert!(!held.release);
}
