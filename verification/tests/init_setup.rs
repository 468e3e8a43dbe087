//! Setting up a repository.

use crosslink::assistant::Assistant;
use crosslink::commands::init::manifest::FileRead;
use crosslink::commands::init::python::{Markers, RunOutcome};
use crosslink::commands::init::servers::{write_mcp_json_merged, Merged};
use crosslink::commands::init::setup::{
    advance_cpitd, command_file_names, hook_file_names, install_cpitd_from_pypi, rule_file_names,
    run, CpitdAction, CpitdEvent, CpitdStage, InitOpts, Layout, Step, PYTHON_PREFIX_PLACEHOLDER,
};
use crosslink::commands::init::signing::{private_key_of, setup_driver_signing, Action, Event};

const ASSISTANT: Assistant<'static> = Assistant {
    program: "assistant",
    title: "The Assistant",
    brew_package: "assistant-cli",
    npm_package: "@example/assistant-cli",
    session_variable: "ASSISTANT_SESSION",
    dir: ".assistant",
    guide: "ASSISTANT.md",
};

const SETTINGS: &str = "{\"hook\": \"__PYTHON_PREFIX__ \\\"$(git\"}";

fn opts(force: bool) -> InitOpts<'static> {
    InitOpts {
        path: "repo",
        force,
        python_prefix: None,
        skip_cpitd: true,
        skip_signing: true,
        signing_key: None,
        assistant: ASSISTANT,
    }
}

fn layout(there: bool) -> Layout {
    Layout {
        crosslink: there,
        assistant: there,
        hook_config: there,
        gitignore: there,
        rules: there,
        markers: Markers {
            uv_lock: false,
            poetry_lock: false,
            pyproject: None,
            venv: false,
            pipfile: false,
            pipfile_lock: false,
        },
    }
}

fn made(steps: &Vec<Step>, wanted: &str) -> bool {
    steps.iter().any(|s| match s {
        Step::MakeDir { path, .. } => path == wanted,
        _ => false,
    })
}

fn deployed(steps: &Vec<Step>, wanted: &str) -> bool {
    steps.iter().any(|s| match s {
        Step::Deploy { path, .. } => path == wanted,
        _ => false,
    })
}

fn written(steps: &Vec<Step>, wanted: &str) -> String {
    for s in steps {
        if let Step::Write { path, content, .. } = s {
            if path == wanted {
                return content.clone();
            }
        }
    }
    panic!("{wanted} is not written")
}

#[test]
fn test_run_fresh_init() {
    let steps = run(&opts(false), &layout(false), SETTINGS);
    assert!(made(&steps, "repo/.crosslink"));
    assert!(made(&steps, "repo/.crosslink/rules"));
    assert!(steps.iter().any(|s| matches!(s, Step::OpenDatabase(p) if p == "repo/.crosslink/issues.db")));
    assert!(made(&steps, "repo/.assistant/hooks"));
    assert!(made(&steps, "repo/.assistant/mcp"));
    assert!(deployed(&steps, "repo/.crosslink/hook-config.json"));
}

#[test]
fn test_run_creates_hook_files() {
    let steps = run(&opts(false), &layout(false), SETTINGS);
    written(&steps, "repo/.assistant/settings.json");
    assert!(deployed(&steps, "repo/.assistant/hooks/prompt-guard.py"));
    assert!(deployed(&steps, "repo/.assistant/hooks/post-edit-check.py"));
    assert!(deployed(&steps, "repo/.assistant/hooks/session-start.py"));
    assert!(deployed(&steps, "repo/.assistant/hooks/pre-web-check.py"));
    assert!(deployed(&steps, "repo/.assistant/hooks/work-check.py"));
    assert!(deployed(&steps, "repo/.assistant/hooks/crosslink_config.py"));
    assert!(deployed(&steps, "repo/.assistant/mcp/safe-fetch-server.py"));
    assert!(steps.iter().any(|s| matches!(s, Step::MergeServers { path, .. } if path == "repo/.mcp.json")));
}

#[test]
fn test_run_creates_rule_files() {
    let steps = run(&opts(false), &layout(false), SETTINGS);
    for name in [
        "global.md",
        "project.md",
        "rust.md",
        "python.md",
        "javascript.md",
        "typescript.md",
        "tracking-strict.md",
        "tracking-normal.md",
        "tracking-relaxed.md",
    ] {
        assert!(deployed(&steps, &format!("repo/.crosslink/rules/{name}")));
    }
}

#[test]
fn test_run_already_initialized_no_force() {
    let steps = run(&opts(false), &layout(true), SETTINGS);
    assert_eq!(steps.len(), 1);
    assert!(matches!(&steps[0], Step::Say(s) if s.starts_with("Already initialized at repo\n")));
}

#[test]
fn test_run_force_update() {
    let steps = run(&opts(true), &layout(true), SETTINGS);
    assert!(deployed(&steps, "repo/.assistant/hooks/prompt-guard.py"));
}

#[test]
fn test_run_force_updates_rules() {
    let steps = run(&opts(true), &layout(true), SETTINGS);
    assert!(deployed(&steps, "repo/.crosslink/rules/global.md"));
    assert!(steps.iter().any(|s| matches!(s, Step::Say(t) if t == "Updated repo/.crosslink/rules with latest rules\n")));
}

#[test]
fn test_run_partial_init_crosslink_only() {
    let mut there = layout(true);
    there.assistant = false;
    let steps = run(&opts(false), &there, SETTINGS);
    assert!(made(&steps, "repo/.assistant/hooks"));
    assert!(!made(&steps, "repo/.crosslink"));
}

#[test]
fn only_the_missing_part_is_made_beside_the_assistants_settings() {
    let mut there = layout(false);
    there.assistant = true;
    let steps = run(&opts(false), &there, SETTINGS);
    assert!(made(&steps, "repo/.crosslink"));
    assert!(!made(&steps, "repo/.assistant/hooks"));
}

#[test]
fn test_gitignore_includes_local_config() {
    let steps = run(&opts(false), &layout(false), SETTINGS);
    let content = written(&steps, "repo/.crosslink/.gitignore");
    assert!(content.contains("agent.json"));
    assert!(content.contains(".hub-cache/"));
    assert!(content.contains("hook-config.local.json"));
}

#[test]
fn test_settings_json_default_uses_python3() {
    let steps = run(&opts(false), &layout(false), SETTINGS);
    let content = written(&steps, "repo/.assistant/settings.json");
    assert!(content.contains("python3"), "Default init should use python3 in settings.json");
    assert!(!content.contains(PYTHON_PREFIX_PLACEHOLDER), "Placeholder should be replaced");
}

#[test]
fn test_settings_json_uv_project() {
    let mut there = layout(false);
    there.markers.uv_lock = true;
    let content = written(&run(&opts(false), &there, SETTINGS), "repo/.assistant/settings.json");
    assert!(
        content.contains("uv run python3"),
        "uv project should use 'uv run python3' in settings.json"
    );
}

#[test]
fn test_settings_json_cli_override() {
    let mut there = layout(false);
    there.markers.uv_lock = true;
    let mut wanted = opts(false);
    wanted.python_prefix = Some("custom-python");
    let content = written(&run(&wanted, &there, SETTINGS), "repo/.assistant/settings.json");
    assert!(content.contains("custom-python"), "CLI override should be used in settings.json");
    assert!(
        !content.contains("uv run python3"),
        "Auto-detected prefix should not appear when overridden"
    );
}

#[test]
fn test_force_re_detects_toolchain() {
    let content = written(&run(&opts(false), &layout(false), SETTINGS), "repo/.assistant/settings.json");
    assert!(content.contains("\"python3 \\\"$(git"));
    let mut there = layout(true);
    there.markers.uv_lock = true;
    let content = written(&run(&opts(true), &there, SETTINGS), "repo/.assistant/settings.json");
    assert!(content.contains("uv run python3"), "Force re-init should re-detect toolchain");
}

#[test]
fn files_are_named() {
    assert_eq!(hook_file_names().len(), 6);
    assert_eq!(command_file_names().len(), 6);
}

#[test]
fn the_clone_detector_and_the_key_come_last() {
    let mut wanted = opts(false);
    wanted.skip_cpitd = false;
    wanted.skip_signing = false;
    wanted.signing_key = Some("id.pub");
    let steps = run(&wanted, &layout(false), SETTINGS);
    let n = steps.len();
    assert!(matches!(&steps[n - 3], Step::InstallCpitd(p) if p == "python3"));
    assert!(matches!(&steps[n - 2], Step::SetUpSigning { key: Some(k), .. } if k == "id.pub"));
    assert!(matches!(&steps[n - 1], Step::Say(s) if s.starts_with("Crosslink initialized successfully!")));
}

// --- The tool servers ---

const EMBEDDED: &str =
    r#"{"mcpServers": {"crosslink-safe-fetch": {"command": "python3", "args": ["server.py"]}}}"#;

fn merge(existing: Option<&str>) -> Result<Merged, String> {
    let read = match existing {
        Some(text) => FileRead::Content(text.to_string()),
        None => FileRead::Missing,
    };
    write_mcp_json_merged("repo/.mcp.json", EMBEDDED, &read)
}

fn parsed(text: &str) -> serde_json::Value {
    serde_json::from_str(text).unwrap()
}

#[test]
fn test_force_init_preserves_existing_mcp_servers() {
    let existing = r#"{"mcpServers": {"my-custom-server": {"command": "node", "args": ["my-server.js"]}}}"#;
    let merged = merge(Some(existing)).unwrap();
    let result = parsed(&merged.content);
    let servers = result["mcpServers"].as_object().unwrap();
    assert!(
        servers.contains_key("crosslink-safe-fetch"),
        "embedded key \"crosslink-safe-fetch\" should exist"
    );
    assert!(servers.contains_key("my-custom-server"), "custom server should be preserved");
    assert_eq!(servers["my-custom-server"]["command"].as_str().unwrap(), "node");
}

#[test]
fn test_force_init_returns_warnings_for_overwritten_keys() {
    let first = merge(None).unwrap();
    let second = merge(Some(&first.content)).unwrap();
    assert_eq!(second.warnings.len(), 1, "should warn once per embedded key");
    assert!(second.warnings[0].contains("crosslink-safe-fetch"));
    assert_eq!(second.content, first.content);
}

#[test]
fn test_write_mcp_json_merged_creates_fresh_file() {
    let merged = merge(None).unwrap();
    assert!(merged.warnings.is_empty(), "fresh creation should produce no warnings");
    let content = parsed(&merged.content);
    let servers = content["mcpServers"].as_object().unwrap();
    assert_eq!(servers.len(), 1);
    assert!(servers.contains_key("crosslink-safe-fetch"));
    assert!(merged.content.ends_with("}\n"));
}

#[test]
fn test_force_init_fails_on_malformed_mcp_json() {
    let err = merge(Some("not json {{{")).err().unwrap();
    assert!(err.contains("invalid JSON"), "Error should mention invalid JSON, got: {}", err);
}

#[test]
fn test_force_init_fails_on_non_object_mcp_json() {
    let err = merge(Some("[1, 2, 3]")).err().unwrap();
    assert!(
        err.contains("not a JSON object"),
        "Error should mention not a JSON object, got: {}",
        err
    );
}

#[test]
fn test_force_init_handles_empty_mcp_json_file() {
    let err = merge(Some("")).err().unwrap();
    assert!(err.contains("invalid JSON"), "Error should mention invalid JSON, got: {}", err);
}

#[test]
fn test_force_init_fails_on_non_object_mcp_servers_value() {
    let err = merge(Some(r#"{"mcpServers": "banana"}"#)).err().unwrap();
    assert!(
        err.contains("non-object mcpServers"),
        "Error should mention non-object mcpServers, got: {}",
        err
    );
}

#[test]
fn test_init_merges_into_mcp_json_without_mcp_servers_key() {
    let merged = merge(Some(r#"{"someOtherKey": true}"#)).unwrap();
    let parsed = parsed(&merged.content);
    assert_eq!(parsed["someOtherKey"], true);
    assert!(parsed["mcpServers"]["crosslink-safe-fetch"].is_object());
}

#[test]
fn broken_shipped_servers_and_unreadable_files_are_errors() {
    let bad = write_mcp_json_merged("p", "{", &FileRead::Missing).err().unwrap();
    assert!(bad.contains("embedded MCP_JSON is not valid JSON"));
    let bare = write_mcp_json_merged("p", "{}", &FileRead::Missing).err().unwrap();
    assert!(bare.contains("missing mcpServers object"));
    let unread = write_mcp_json_merged("p", EMBEDDED, &FileRead::Unreadable).err().unwrap();
    assert_eq!(unread, "Failed to read existing .mcp.json");
}

// --- The clone detector ---

#[test]
fn the_source_is_tried_where_the_package_fails() {
    let (stage, say, action) =
        advance_cpitd(CpitdStage::Probe, "uv run python3", "/tmp/x", &CpitdEvent::Found(false));
    assert_eq!(say, "");
    assert!(matches!(action, CpitdAction::Run(c) if c.program == "uv"));
    let failed = CpitdEvent::Ran(RunOutcome::Failed("no".to_string()));
    let (stage, say, _) = advance_cpitd(stage, "uv run python3", "/tmp/x", &failed);
    assert_eq!(say, "  PyPI install failed, trying install from source...\n");
    let (stage, _, action) =
        advance_cpitd(stage, "uv run python3", "/tmp/x", &CpitdEvent::Ran(RunOutcome::Succeeded));
    assert!(matches!(action, CpitdAction::Run(c) if c.args == vec!["pip", "install", "/tmp/x"]));
    let (stage, say, action) = advance_cpitd(stage, "uv run python3", "/tmp/x", &failed);
    assert_eq!(
        say,
        "Warning: Could not auto-install cpitd: cpitd install failed: no\n  You can install it manually: pip install cpitd\n"
    );
    assert!(matches!(action, CpitdAction::Finish(true)));
    assert_eq!(stage, CpitdStage::Done);
    assert_eq!(install_cpitd_from_pypi("python3").args, vec!["-m", "pip", "install", "cpitd"]);
}

// --- The signing key ---

#[test]
fn a_private_key_leads_to_the_public_one_beside_it() {
    let (mut signing, action) = setup_driver_signing("repo");
    assert!(matches!(action, Action::CheckFile(p) if p == "repo/.crosslink/driver-key.pub"));
    let (_, action) = signing.advance("repo", None, Event::Exists(false));
    assert!(matches!(action, Action::AskGitKey));
    let (_, action) = signing.advance("repo", None, Event::Text(None));
    assert!(matches!(action, Action::AskDefaultKey));
    let (_, action) = signing.advance("repo", None, Event::Text(Some("id".to_string())));
    assert!(matches!(action, Action::CheckFile(p) if p == "id.pub"));
    let (_, action) = signing.advance("repo", None, Event::Exists(true));
    assert!(matches!(action, Action::ReadKey(p) if p == "id.pub"));
    let (_, action) = signing.advance("repo", None, Event::Text(Some("ssh-ed25519 AAAA".to_string())));
    match action {
        Action::WriteFile(path, content) => {
            assert_eq!(path, "repo/.crosslink/driver-key.pub");
            assert_eq!(content, "ssh-ed25519 AAAA");
        }
        _ => panic!("expected a file"),
    }
    let (_, action) = signing.advance("repo", None, Event::Done(Ok(())));
    assert!(matches!(action, Action::AskFingerprint(p) if p == "id.pub"));
    let (say, action) = signing.advance("repo", None, Event::Text(Some("SHA256:f".to_string())));
    assert_eq!(say, "Driver signing key: SHA256:f (id.pub)\n");
    assert!(matches!(action, Action::CheckFile(p) if p == "id"));
    let (_, action) = signing.advance("repo", None, Event::Exists(true));
    assert!(matches!(action, Action::ConfigureGit(p) if p == "id"));
    let (say, action) = signing.advance("repo", None, Event::Done(Err("locked".to_string())));
    assert_eq!(say, "Warning: Could not configure git signing: locked\n");
    assert!(matches!(action, Action::Finish));
    assert_eq!(private_key_of("id.pub"), "id");
    assert_eq!(private_key_of("id"), "id");
}

#[test]
fn a_key_that_is_set_up_is_kept_and_a_missing_one_is_named() {
    let (mut signing, _) = setup_driver_signing("repo");
    let (say, action) = signing.advance("repo", Some("lost"), Event::Exists(true));
    assert_eq!(say, "");
    assert!(matches!(action, Action::Finish));

    let (mut signing, _) = setup_driver_signing("repo");
    signing.advance("repo", Some("lost"), Event::Exists(false));
    let (say, action) = signing.advance("repo", Some("lost"), Event::Exists(false));
    assert_eq!(say, "Warning: Signing key not found at lost\n");
    assert!(matches!(action, Action::Finish));
}

#[test]
fn a_file_that_is_no_key_and_a_failed_copy_end_the_setup() {
    let (mut signing, _) = setup_driver_signing("repo");
    signing.advance("repo", Some("k.pub"), Event::Exists(false));
    signing.advance("repo", Some("k.pub"), Event::Exists(true));
    let (say, action) = signing.advance("repo", Some("k.pub"), Event::Text(None));
    assert!(say.starts_with("Warning: k.pub does not appear to be an SSH public key\n"));
    assert!(matches!(action, Action::Finish));

    let (mut signing, _) = setup_driver_signing("repo");
    signing.advance("repo", Some("k.pub"), Event::Exists(false));
    signing.advance("repo", Some("k.pub"), Event::Exists(true));
    signing.advance("repo", Some("k.pub"), Event::Text(Some("key".to_string())));
    let (_, action) = signing.advance("repo", Some("k.pub"), Event::Done(Err("full".to_string())));
    assert!(matches!(action, Action::Fail(m) if m == "Failed to write driver-key.pub"));
}

#[test]
fn test_run_idempotent_with_force() {
    let mut there = false;
    for _ in 0..3 {
        let steps = run(&opts(true), &layout(there), SETTINGS);
        assert!(written(&steps, "repo/.assistant/settings.json").contains("python3"));
        let opened = steps.iter().any(|s| matches!(s, Step::OpenDatabase(_)));
        assert_eq!(opened, !there);
        there = true;
    }
}

#[test]
fn test_rule_files_count() {
    // Verify we have the expected number of rule files
    let names = rule_file_names();
    assert!(names.len() >= 20);
    assert_eq!(names.len(), 27);
    for name in names {
        assert!(!name.is_empty(), "Rule file name should not be empty");
    }
}
