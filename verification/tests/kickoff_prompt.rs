//! The prompts that agents are given.

use crosslink::assistant::Assistant;
use crosslink::commands::design_doc::DesignDoc;
use crosslink::commands::kickoff::conventions::ProjectConventions;
use crosslink::commands::kickoff::options::{ContainerMode, KickoffOpts, VerifyLevel};
use crosslink::commands::kickoff::prompt::{
    build_adversarial_review_section, build_ci_verification_section, build_final_steps_section,
    build_plan_prompt, build_prompt, build_reporting_section, build_test_lint_instructions,
};

const ASSISTANT: Assistant<'static> = Assistant {
    program: "assistant",
    title: "The Assistant",
    brew_package: "assistant-cli",
    npm_package: "@example/assistant-cli",
    session_variable: "ASSISTANT_SESSION",
    dir: ".assistant",
    guide: "ASSISTANT.md",
};

#[test]
fn test_build_prompt_contains_essentials() {
    let conventions = ProjectConventions {
        test_command: Some("cargo test".to_string()),
        lint_commands: vec!["cargo clippy -- -D warnings".to_string()],
        allowed_tools: vec!["Bash(cargo *)".to_string()],
    };
    let opts = KickoffOpts {
        description: "add retry logic",
        issue: None,
        container: ContainerMode::Local,
        verify: VerifyLevel::Local,
        model: "opus",
        image: "",
        timeout: 3600,
        dry_run: false,
        branch: None,
        quiet: false,
        design_doc: None,
        doc_path: None,
        assistant: ASSISTANT,
    };
    let prompt = build_prompt(&opts, 42, "feature/add-retry-logic", &conventions);

    assert!(prompt.contains("add retry logic"));
    assert!(prompt.contains("#42"));
    assert!(prompt.contains("feature/add-retry-logic"));
    assert!(prompt.contains("cargo test"));
    assert!(prompt.contains("KICKOFF"));
    assert!(prompt.contains("crosslink session"));
}

#[test]
fn test_build_prompt_ci_verification() {
    let conventions = ProjectConventions {
        test_command: None,
        lint_commands: vec![],
        allowed_tools: vec![],
    };
    let opts = KickoffOpts {
        description: "test ci",
        issue: None,
        container: ContainerMode::Local,
        verify: VerifyLevel::Ci,
        model: "opus",
        image: "",
        timeout: 3600,
        dry_run: false,
        branch: None,
        quiet: false,
        design_doc: None,
        doc_path: None,
        assistant: ASSISTANT,
    };
    let prompt = build_prompt(&opts, 1, "feature/test-ci", &conventions);

    assert!(prompt.contains("CI Verification"));
    assert!(prompt.contains("gh pr create"));
    assert!(!prompt.contains("Adversarial"));
}

#[test]
fn test_build_prompt_thorough_verification() {
    let conventions = ProjectConventions {
        test_command: None,
        lint_commands: vec![],
        allowed_tools: vec![],
    };
    let opts = KickoffOpts {
        description: "test thorough",
        issue: None,
        container: ContainerMode::Local,
        verify: VerifyLevel::Thorough,
        model: "opus",
        image: "",
        timeout: 3600,
        dry_run: false,
        branch: None,
        quiet: false,
        design_doc: None,
        doc_path: None,
        assistant: ASSISTANT,
    };
    let prompt = build_prompt(&opts, 1, "feature/test-thorough", &conventions);

    assert!(prompt.contains("CI Verification"));
    assert!(prompt.contains("Adversarial Self-Review"));
}

#[test]
fn test_build_test_lint_instructions_with_commands() {
    let conv = ProjectConventions {
        test_command: Some("cargo test".to_string()),
        lint_commands: vec![
            "cargo clippy -- -D warnings".to_string(),
            "cargo fmt --check".to_string(),
        ],
        allowed_tools: vec![],
    };
    let section = build_test_lint_instructions(&conv, 42);
    assert!(section.contains("`cargo test`"));
    assert!(section.contains("`cargo clippy -- -D warnings`"));
    assert!(section.contains("`cargo fmt --check`"));
    assert!(section.contains("crosslink comment 42"));
}

#[test]
fn test_build_test_lint_instructions_without_commands() {
    let conv = ProjectConventions {
        test_command: None,
        lint_commands: vec![],
        allowed_tools: vec![],
    };
    let section = build_test_lint_instructions(&conv, 7);
    assert!(section.contains("Run the project's test suite"));
    assert!(section.contains("Run lint and format checks"));
    assert!(section.contains("crosslink comment 7"));
}

#[test]
fn test_build_ci_verification_section_content() {
    let section = build_ci_verification_section();
    assert!(section.contains("CI Verification"));
    assert!(section.contains("gh pr create"));
    assert!(section.contains("gh run list"));
    assert!(section.contains("CI_FAILED"));
    assert!(section.contains("Maximum 5 CI fix-and-retry"));
}

#[test]
fn test_build_adversarial_review_section_content() {
    let section = build_adversarial_review_section();
    assert!(section.contains("Adversarial Self-Review"));
    assert!(section.contains("git diff main...HEAD"));
    assert!(section.contains("unwrap()"));
}

#[test]
fn test_build_final_steps_section_content() {
    let section = build_final_steps_section();
    assert!(section.contains("Self-review checklist"));
    assert!(section.contains("crosslink session end"));
    assert!(section.contains(".kickoff-status"));
    assert!(section.contains("DONE"));
}

#[test]
fn test_build_prompt_local_has_no_ci_or_adversarial() {
    let conventions = ProjectConventions {
        test_command: None,
        lint_commands: vec![],
        allowed_tools: vec![],
    };
    let opts = KickoffOpts {
        description: "test local",
        issue: None,
        container: ContainerMode::Local,
        verify: VerifyLevel::Local,
        model: "opus",
        image: "",
        timeout: 3600,
        dry_run: false,
        branch: None,
        quiet: false,
        design_doc: None,
        doc_path: None,
        assistant: ASSISTANT,
    };
    let prompt = build_prompt(&opts, 1, "feature/test-local", &conventions);

    assert!(!prompt.contains("CI Verification"));
    assert!(!prompt.contains("Adversarial Self-Review"));
    assert!(prompt.contains("Final Steps"));
}

#[test]
fn test_build_prompt_contains_blocked_actions() {
    let conventions = ProjectConventions {
        test_command: None,
        lint_commands: vec![],
        allowed_tools: vec![],
    };
    let opts = KickoffOpts {
        description: "test blocked actions",
        issue: None,
        container: ContainerMode::Local,
        verify: VerifyLevel::Local,
        model: "opus",
        image: "",
        timeout: 3600,
        dry_run: false,
        branch: None,
        quiet: false,
        design_doc: None,
        doc_path: None,
        assistant: ASSISTANT,
    };
    let prompt = build_prompt(&opts, 1, "feature/test", &conventions);

    assert!(prompt.contains("Blocked Actions"));
    assert!(prompt.contains("git push"));
    assert!(prompt.contains("git merge"));
    assert!(prompt.contains("git reset"));
}

#[test]
fn test_build_prompt_embeds_issue_id_in_instructions() {
    let conventions = ProjectConventions {
        test_command: Some("cargo test".to_string()),
        lint_commands: vec!["cargo clippy".to_string()],
        allowed_tools: vec![],
    };
    let opts = KickoffOpts {
        description: "test issue refs",
        issue: None,
        container: ContainerMode::Local,
        verify: VerifyLevel::Local,
        model: "opus",
        image: "",
        timeout: 3600,
        dry_run: false,
        branch: None,
        quiet: false,
        design_doc: None,
        doc_path: None,
        assistant: ASSISTANT,
    };
    let prompt = build_prompt(&opts, 999, "feature/test-refs", &conventions);

    // Issue ID should appear in context header and in session/comment instructions
    assert!(prompt.contains("#999"));
    assert!(prompt.contains("crosslink session work 999"));
    assert!(prompt.contains("crosslink comment 999"));
}

#[test]
fn test_build_prompt_empty_conventions_uses_generic_instructions() {
    let conventions = ProjectConventions {
        test_command: None,
        lint_commands: vec![],
        allowed_tools: vec![],
    };
    let opts = KickoffOpts {
        description: "test generic",
        issue: None,
        container: ContainerMode::Local,
        verify: VerifyLevel::Local,
        model: "opus",
        image: "",
        timeout: 3600,
        dry_run: false,
        branch: None,
        quiet: false,
        design_doc: None,
        doc_path: None,
        assistant: ASSISTANT,
    };
    let prompt = build_prompt(&opts, 1, "feature/test-generic", &conventions);

    // Without specific test/lint commands, prompt should use generic phrasing
    assert!(prompt.contains("Run the project's test suite"));
    assert!(prompt.contains("Run lint and format checks"));
    // Should NOT contain backtick-quoted commands
    assert!(!prompt.contains("`cargo test`"));
}

#[test]
fn test_build_prompt_with_design_doc() {
    let doc = DesignDoc {
        title: "Batch Retry".to_string(),
        summary: "Add retry logic.".to_string(),
        requirements: vec!["REQ-1: Retry 3 times".to_string()],
        requirement_groups: Vec::new(),
        acceptance_criteria: vec!["AC-1: Tests pass".to_string()],
        architecture: "Middleware pattern".to_string(),
        open_questions: Vec::new(),
        out_of_scope: vec!["Not doing X".to_string()],
        unknown_sections: Vec::new(),
    };
    let conventions = ProjectConventions {
        test_command: None,
        lint_commands: vec![],
        allowed_tools: vec![],
    };
    let opts = KickoffOpts {
        description: "batch retry",
        issue: None,
        container: ContainerMode::Local,
        verify: VerifyLevel::Local,
        model: "opus",
        image: "",
        timeout: 3600,
        dry_run: false,
        branch: None,
        quiet: false,
        design_doc: Some(&doc),
        doc_path: None,
        assistant: ASSISTANT,
    };
    let prompt = build_prompt(&opts, 1, "feature/batch-retry", &conventions);

    assert!(prompt.contains("## Design Specification"));
    assert!(prompt.contains("Add retry logic."));
    assert!(prompt.contains("REQ-1: Retry 3 times"));
    assert!(prompt.contains("AC-1: Tests pass"));
    assert!(prompt.contains("Middleware pattern"));
    assert!(prompt.contains("Not doing X"));
    // No open questions, so no escalation block
    assert!(!prompt.contains("Escalation Required"));
}

#[test]
fn test_build_plan_prompt_contains_essentials() {
    let doc = DesignDoc {
        title: "Batch Retry".to_string(),
        summary: "Add retry logic.".to_string(),
        requirements: vec!["REQ-1: Retry 3 times".to_string()],
        requirement_groups: Vec::new(),
        acceptance_criteria: vec!["AC-1: Tests pass".to_string()],
        architecture: "Middleware".to_string(),
        open_questions: Vec::new(),
        out_of_scope: Vec::new(),
        unknown_sections: Vec::new(),
    };
    let prompt = build_plan_prompt(&doc, Some(42));

    assert!(prompt.contains("KICKOFF PLAN"));
    assert!(prompt.contains("Batch Retry"));
    assert!(prompt.contains("#42"));
    assert!(prompt.contains("Design Specification"));
    assert!(prompt.contains("REQ-1: Retry 3 times"));
    assert!(prompt.contains(".kickoff-plan.json"));
    assert!(prompt.contains("read-only"));
    assert!(prompt.contains("gaps"));
    assert!(prompt.contains("assumptions"));
    assert!(prompt.contains("estimated_subtasks"));
    assert!(prompt.contains("conflicts"));
}

#[test]
fn test_build_plan_prompt_with_open_questions() {
    let doc = DesignDoc {
        title: "Auth".to_string(),
        summary: String::new(),
        requirements: Vec::new(),
        requirement_groups: Vec::new(),
        acceptance_criteria: Vec::new(),
        architecture: String::new(),
        open_questions: vec!["Q1: OAuth or JWT?".to_string()],
        out_of_scope: Vec::new(),
        unknown_sections: Vec::new(),
    };
    let prompt = build_plan_prompt(&doc, None);

    assert!(prompt.contains("Escalation Required"));
    assert!(prompt.contains("Q1: OAuth or JWT?"));
    // No issue line when None
    assert!(!prompt.contains("Issue"));
}

#[test]
fn test_build_plan_prompt_without_issue() {
    let doc = DesignDoc {
        title: "Test".to_string(),
        summary: "S".to_string(),
        requirements: Vec::new(),
        requirement_groups: Vec::new(),
        acceptance_criteria: Vec::new(),
        architecture: String::new(),
        open_questions: Vec::new(),
        out_of_scope: Vec::new(),
        unknown_sections: Vec::new(),
    };
    let prompt = build_plan_prompt(&doc, None);

    assert!(prompt.contains("KICKOFF PLAN"));
    // No issue line when None
    assert!(!prompt.contains("**Issue**"));
}

#[test]
fn test_build_prompt_with_design_doc_open_questions() {
    let doc = DesignDoc {
        title: "Auth Feature".to_string(),
        summary: "Add auth.".to_string(),
        requirements: vec!["REQ-1: Login".to_string()],
        requirement_groups: Vec::new(),
        acceptance_criteria: vec!["AC-1: Can log in".to_string()],
        architecture: String::new(),
        open_questions: vec![
            "Q1: OAuth or JWT?".to_string(),
            "Q2: Session duration?".to_string(),
        ],
        out_of_scope: Vec::new(),
        unknown_sections: Vec::new(),
    };
    let conventions = ProjectConventions {
        test_command: None,
        lint_commands: vec![],
        allowed_tools: vec![],
    };
    let opts = KickoffOpts {
        description: "auth feature",
        issue: None,
        container: ContainerMode::Local,
        verify: VerifyLevel::Local,
        model: "opus",
        image: "",
        timeout: 3600,
        dry_run: false,
        branch: None,
        quiet: false,
        design_doc: Some(&doc),
        doc_path: None,
        assistant: ASSISTANT,
    };
    let prompt = build_prompt(&opts, 1, "feature/auth", &conventions);

    assert!(prompt.contains("## Design Specification"));
    assert!(prompt.contains("Escalation Required"));
    assert!(prompt.contains("Q1: OAuth or JWT?"));
    assert!(prompt.contains("Q2: Session duration?"));
    assert!(prompt.contains("crosslink comment"));
}

#[test]
fn test_build_reporting_section_has_full_schema() {
    let section = build_reporting_section();
    // Phase 3 validation content
    assert!(section.contains("Spec Validation"));
    assert!(section.contains(".kickoff-criteria.json"));
    assert!(section.contains(".kickoff-report.json"));
    assert!(section.contains("pass"));
    assert!(section.contains("fail"));
    assert!(section.contains("partial"));
    assert!(section.contains("evidence"));
    // Phase 4 schema elements
    assert!(section.contains("schema_version"));
    assert!(section.contains("agent_id"));
    assert!(section.contains("phases"));
    assert!(section.contains("commits"));
    assert!(section.contains("files_changed"));
    assert!(section.contains("duration_s"));
}

#[test]
fn test_build_reporting_section_has_validation_instructions() {
    let section = build_reporting_section();
    assert!(section.contains("not_applicable"));
    assert!(section.contains("needs_clarification"));
    assert!(section.contains("Be strict"));
    assert!(section.contains("concrete evidence"));
}

#[test]
fn test_build_prompt_with_criteria_includes_validation() {
    let conventions = ProjectConventions {
        test_command: None,
        lint_commands: vec![],
        allowed_tools: vec![],
    };
    let doc = DesignDoc {
        title: "Test".to_string(),
        summary: "Summary".to_string(),
        requirements: vec![],
        requirement_groups: Vec::new(),
        acceptance_criteria: vec!["Users can log in".to_string()],
        architecture: String::new(),
        open_questions: vec![],
        out_of_scope: vec![],
        unknown_sections: vec![],
    };
    let opts = KickoffOpts {
        description: "test feature",
        issue: None,
        container: ContainerMode::Local,
        verify: VerifyLevel::Local,
        model: "opus",
        image: "",
        timeout: 3600,
        dry_run: false,
        branch: None,
        quiet: false,
        design_doc: Some(&doc),
        doc_path: None,
        assistant: ASSISTANT,
    };
    let prompt = build_prompt(&opts, 1, "feature/test", &conventions);
    assert!(prompt.contains("Spec Validation"));
    assert!(prompt.contains(".kickoff-criteria.json"));
    assert!(prompt.contains("schema_version"));
    assert!(prompt.contains("phases"));
}

#[test]
fn test_build_prompt_without_criteria_no_validation() {
    let conventions = ProjectConventions {
        test_command: None,
        lint_commands: vec![],
        allowed_tools: vec![],
    };
    let doc = DesignDoc {
        title: "Test".to_string(),
        summary: "Summary".to_string(),
        requirements: vec![],
        requirement_groups: Vec::new(),
        acceptance_criteria: vec![],
        architecture: String::new(),
        open_questions: vec![],
        out_of_scope: vec![],
        unknown_sections: vec![],
    };
    let opts = KickoffOpts {
        description: "test feature",
        issue: None,
        container: ContainerMode::Local,
        verify: VerifyLevel::Local,
        model: "opus",
        image: "",
        timeout: 3600,
        dry_run: false,
        branch: None,
        quiet: false,
        design_doc: Some(&doc),
        doc_path: None,
        assistant: ASSISTANT,
    };
    let prompt = build_prompt(&opts, 1, "feature/test", &conventions);
    assert!(!prompt.contains("Spec Validation"));
}

#[test]
fn test_build_prompt_validation_ordering() {
    let conventions = ProjectConventions {
        test_command: Some("cargo test".to_string()),
        lint_commands: vec![],
        allowed_tools: vec![],
    };
    let doc = DesignDoc {
        title: "Test".to_string(),
        summary: "Summary".to_string(),
        requirements: vec![],
        requirement_groups: Vec::new(),
        acceptance_criteria: vec!["Criterion one".to_string()],
        architecture: String::new(),
        open_questions: vec![],
        out_of_scope: vec![],
        unknown_sections: vec![],
    };
    let opts = KickoffOpts {
        description: "test feature",
        issue: None,
        container: ContainerMode::Local,
        verify: VerifyLevel::Local,
        model: "opus",
        image: "",
        timeout: 3600,
        dry_run: false,
        branch: None,
        quiet: false,
        design_doc: Some(&doc),
        doc_path: None,
        assistant: ASSISTANT,
    };
    let prompt = build_prompt(&opts, 1, "feature/test", &conventions);
    let test_pos = prompt.find("Run tests").expect("should have test section");
    let validation_pos = prompt
        .find("Spec Validation")
        .expect("should have validation");
    let final_pos = prompt.find("Final Steps").expect("should have final steps");
    assert!(
        test_pos < validation_pos,
        "validation should come after tests"
    );
    assert!(
        validation_pos < final_pos,
        "validation should come before final steps"
    );
}

#[test]
fn test_build_prompt_contains_report_json_schema() {
    // When a design doc with acceptance criteria is provided, the prompt
    // must include the KickoffReport JSON schema fields.
    let doc = DesignDoc {
        title: "Test Feature".to_string(),
        summary: String::new(),
        requirements: vec![],
        requirement_groups: Vec::new(),
        acceptance_criteria: vec!["AC-1: Widget renders".to_string()],
        architecture: String::new(),
        open_questions: vec![],
        out_of_scope: vec![],
        unknown_sections: vec![],
    };
    let conventions = ProjectConventions {
        test_command: None,
        lint_commands: vec![],
        allowed_tools: vec![],
    };
    let opts = KickoffOpts {
        description: "test feature",
        issue: None,
        container: ContainerMode::Local,
        verify: VerifyLevel::Local,
        model: "opus",
        image: "",
        timeout: 3600,
        dry_run: false,
        branch: None,
        quiet: false,
        design_doc: Some(&doc),
        doc_path: Some("test.md"),
        assistant: ASSISTANT,
    };
    let prompt = build_prompt(&opts, 1, "feature/test", &conventions);

    // Must contain the JSON schema field names from KickoffReport
    assert!(prompt.contains("schema_version"));
    assert!(prompt.contains("agent_id"));
    assert!(prompt.contains("issue_id"));
    assert!(prompt.contains("validated_at"));
    assert!(prompt.contains("criteria"));
    assert!(prompt.contains("summary"));
    assert!(prompt.contains(".kickoff-report.json"));
}

#[test]
fn test_build_prompt_contains_validation_section() {
    // When acceptance criteria are present, the prompt must include
    // the spec validation instructions.
    let doc = DesignDoc {
        title: "Validated Feature".to_string(),
        summary: String::new(),
        requirements: vec![],
        requirement_groups: Vec::new(),
        acceptance_criteria: vec!["AC-1: Must work".to_string()],
        architecture: String::new(),
        open_questions: vec![],
        out_of_scope: vec![],
        unknown_sections: vec![],
    };
    let conventions = ProjectConventions {
        test_command: None,
        lint_commands: vec![],
        allowed_tools: vec![],
    };
    let opts = KickoffOpts {
        description: "validated feature",
        issue: None,
        container: ContainerMode::Local,
        verify: VerifyLevel::Local,
        model: "opus",
        image: "",
        timeout: 3600,
        dry_run: false,
        branch: None,
        quiet: false,
        design_doc: Some(&doc),
        doc_path: Some("test.md"),
        assistant: ASSISTANT,
    };
    let prompt = build_prompt(&opts, 1, "feature/validated", &conventions);

    assert!(prompt.contains("Spec Validation & Reporting"));
    assert!(prompt.contains("Criteria Validation"));
    assert!(prompt.contains(".kickoff-criteria.json"));
    assert!(prompt.contains("pass"));
    assert!(prompt.contains("fail"));
    assert!(prompt.contains("partial"));
    assert!(prompt.contains("not_applicable"));
    assert!(prompt.contains("needs_clarification"));
}
