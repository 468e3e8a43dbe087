//! The design command.

use crosslink::assistant::Assistant;
use crosslink::commands::design_cmd::{run, strip_frontmatter, DesignTask};

const ASSISTANT: Assistant<'static> = Assistant {
    program: "assistant",
    title: "The Assistant",
    brew_package: "assistant-cli",
    npm_package: "@example/assistant-cli",
    session_variable: "ASSISTANT_SESSION",
    dir: ".assistant",
    guide: "ASSISTANT.md",
};

#[test]
fn test_strip_frontmatter_with_frontmatter() {
    let input = "---\nallowed-tools: Read\ndescription: test\n---\n\n## Context\nBody here";
    let result = strip_frontmatter(input);
    assert!(result.starts_with("## Context"));
}

#[test]
fn test_strip_frontmatter_without_frontmatter() {
    let input = "## Context\nBody here";
    let result = strip_frontmatter(input);
    assert_eq!(result, input);
}

#[test]
fn test_strip_frontmatter_empty() {
    let result = strip_frontmatter("");
    assert_eq!(result, "");
}

#[test]
fn a_session_is_not_started_inside_a_session() {
    match run(ASSISTANT, true, true, "body", None, None, None, None) {
        Ok(DesignTask::Refuse(say)) => {
            assert_eq!(say, "Already inside The Assistant — use /design instead.")
        }
        _ => panic!("expected a refusal"),
    }
}

#[test]
fn a_missing_assistant_is_an_error() {
    match run(ASSISTANT, false, false, "body", None, None, None, None) {
        Err(message) => assert_eq!(
            message,
            "`assistant` CLI not found. Install it:\n\n  npm install -g @example/assistant-cli\n\n  Or: brew install assistant-cli"
        ),
        _ => panic!("expected an error"),
    }
}

#[test]
fn arguments_stand_before_the_body() {
    match run(ASSISTANT, false, true, "---\na: b\n---\nbody", Some("retry"), Some(3), None, None) {
        Ok(DesignTask::Launch(prompt)) => {
            assert_eq!(prompt, "ARGUMENTS: \"retry\" --issue 3\n\nbody")
        }
        _ => panic!("expected a launch"),
    }
    match run(ASSISTANT, false, true, "body", Some("retry"), None, Some(9), Some("slug")) {
        Ok(DesignTask::Launch(prompt)) => {
            assert_eq!(prompt, "ARGUMENTS: --continue slug --gh-issue 9\n\nbody")
        }
        _ => panic!("expected a launch"),
    }
    match run(ASSISTANT, false, true, "body", None, None, None, None) {
        Ok(DesignTask::Launch(prompt)) => assert_eq!(prompt, "body"),
        _ => panic!("expected a launch"),
    }
}
