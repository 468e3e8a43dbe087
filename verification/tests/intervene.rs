//! Recording interventions.

use crosslink::commands::intervene::{
    decide, is_intervention_tracking_enabled, report_logged, run, validate_trigger_type, Decision,
};

#[test]
fn test_intervene_invalid_trigger_type() {
    let result = run(1, "test", "invalid_type", None, None);
    assert!(result.is_err());
    assert!(result.err().unwrap().contains("Unknown trigger type"));
}

#[test]
fn test_intervene_disabled_by_config() {
    let config = r#"{"tracking_mode":"strict","intervention_tracking":false}"#;
    assert!(!is_intervention_tracking_enabled(Some(config)));
    // No comment should be created
    let decision = run(1, "test", "tool_blocked", None, Some(config)).ok().unwrap();
    assert!(matches!(decision, Decision::Skip(_)));
}

#[test]
fn test_all_trigger_types_accepted() {
    for trigger in &[
        "tool_rejected",
        "tool_blocked",
        "redirect",
        "context_provided",
        "manual_action",
        "question_answered",
    ] {
        assert!(validate_trigger_type(trigger));
        let decision = decide(true, 1, "test", trigger, None).ok().unwrap();
        assert!(matches!(decision, Decision::Log(_)));
    }
}

#[test]
fn an_intervention_is_logged_as_it_was_given() {
    let config = r#"{"intervention_tracking":true}"#;
    let decision = run(
        7,
        "Blocked: git push",
        "tool_blocked",
        Some("pushing feature branch"),
        Some(config),
    );
    match decision {
        Ok(Decision::Log(logged)) => {
            assert_eq!(logged.issue_id, 7);
            assert_eq!(logged.description, "Blocked: git push");
            assert_eq!(logged.trigger_type, "tool_blocked");
            assert_eq!(logged.context.as_deref(), Some("pushing feature branch"));
        }
        _ => panic!("not logged"),
    }
    match run(7, "Driver redirected approach", "redirect", None, None) {
        Ok(Decision::Log(logged)) => {
            assert_eq!(logged.trigger_type, "redirect");
            assert!(logged.context.is_none());
        }
        _ => panic!("not logged"),
    }
}

#[test]
fn tracking_is_on_unless_it_is_switched_off() {
    assert!(is_intervention_tracking_enabled(None));
    assert!(is_intervention_tracking_enabled(Some("{}")));
    assert!(is_intervention_tracking_enabled(Some("not json")));
    assert!(is_intervention_tracking_enabled(Some(r#"{"intervention_tracking":true}"#)));
}

#[test]
fn a_logged_intervention_names_its_issue() {
    let out = report_logged("#4", "redirect", Some("SHA256:k"));
    assert!(out.contains("#4"));
    assert!(out.contains("redirect"));
    assert!(out.contains("SHA256:k"));
    assert!(!report_logged("#4", "redirect", None).contains("SHA256:k"));
}
