//! Launching agents: what a project needs, what a machine offers, and every step.

use crosslink::assistant::Assistant;
use crosslink::commands::design_doc::DesignDoc;
use crosslink::commands::kickoff::container::{build_agent_script, container_args, runtime_name};
use crosslink::commands::kickoff::conventions::{
    detect_conventions, exclude_additions, missing_exclude_patterns,
};
use crosslink::commands::kickoff::criteria::extract_criteria;
use crosslink::commands::kickoff::launch::{begin, Action, Event, Launch, Request, Stage};
use crosslink::commands::kickoff::naming::{
    agent_worktree_slug, child_agent_id, suffix_session_name, try_slugify,
};
use crosslink::commands::kickoff::options::{
    duration_fits, parse_container_mode, parse_duration, parse_verify_level, verify_level_name,
    ContainerMode, KickoffOpts, PlanOpts, VerifyLevel,
};
use crosslink::commands::kickoff::platform::{
    detect_linux_distro, detect_platform, preflight_check, read_sandbox_command,
    resolve_timeout_command, LinuxDistro, Platform,
};
use crosslink::commands::kickoff::watchdog::read_watchdog_config;

const ASSISTANT: Assistant<'static> = Assistant {
    program: "assistant",
    title: "The Assistant",
    brew_package: "assistant-cli",
    npm_package: "@example/assistant-cli",
    session_variable: "ASSISTANT_SESSION",
    dir: ".assistant",
    guide: "ASSISTANT.md",
};

fn names(list: &[&str]) -> Vec<String> {
    list.iter().map(|s| s.to_string()).collect()
}

// --- Conventions ---

#[test]
fn test_detect_conventions_rust() {
    let conv = detect_conventions(&names(&["Cargo.toml"]));
    assert_eq!(conv.test_command.as_deref(), Some("cargo test"));
    assert!(conv.allowed_tools.contains(&"Bash(cargo *)".to_string()));
}

#[test]
fn test_detect_conventions_node() {
    let conv = detect_conventions(&names(&["package.json"]));
    assert_eq!(conv.test_command.as_deref(), Some("npm test"));
    assert!(conv.allowed_tools.contains(&"Bash(npm *)".to_string()));
}

#[test]
fn test_detect_conventions_python() {
    let conv = detect_conventions(&names(&["pyproject.toml"]));
    assert_eq!(conv.test_command.as_deref(), Some("uv run pytest"));
    assert!(conv.lint_commands.contains(&"ruff check .".to_string()));
    assert!(conv.allowed_tools.contains(&"Bash(python3 *)".to_string()));
}

#[test]
fn test_detect_conventions_go() {
    let conv = detect_conventions(&names(&["go.mod"]));
    assert_eq!(conv.test_command.as_deref(), Some("go test ./..."));
    assert!(conv.lint_commands.contains(&"go vet ./...".to_string()));
    assert!(conv.allowed_tools.contains(&"Bash(go *)".to_string()));
}

#[test]
fn test_detect_conventions_just() {
    let conv = detect_conventions(&names(&["justfile"]));
    assert!(conv.allowed_tools.contains(&"Bash(just *)".to_string()));
}

#[test]
fn test_detect_conventions_make() {
    let conv = detect_conventions(&names(&["Makefile"]));
    assert!(conv.allowed_tools.contains(&"Bash(make *)".to_string()));
}

#[test]
fn test_detect_conventions_empty_dir() {
    let conv = detect_conventions(&names(&[]));
    assert!(conv.test_command.is_none());
    assert!(conv.lint_commands.is_empty());
    assert!(conv.allowed_tools.is_empty());
}

#[test]
fn test_detect_conventions_multi_language() {
    let conv = detect_conventions(&names(&["Cargo.toml", "package.json"]));
    // Rust gets priority for test_command
    assert_eq!(conv.test_command.as_deref(), Some("cargo test"));
    // Both toolchains present
    assert!(conv.allowed_tools.contains(&"Bash(cargo *)".to_string()));
    assert!(conv.allowed_tools.contains(&"Bash(npm *)".to_string()));
}

#[test]
fn test_detect_conventions_requirements_txt() {
    let conv = detect_conventions(&names(&["requirements.txt"]));
    assert_eq!(conv.test_command.as_deref(), Some("uv run pytest"));
    assert!(conv.allowed_tools.contains(&"Bash(uv *)".to_string()));
}

#[test]
fn test_detect_conventions_crosslink_subdir_cargo() {
    let conv = detect_conventions(&names(&["crosslink/Cargo.toml"]));
    assert_eq!(conv.test_command.as_deref(), Some("cargo test"));
}

#[test]
fn what_was_excluded_is_not_missing() {
    let before = "target\n";
    let after = format!("{before}{}", exclude_additions(before));
    assert!(missing_exclude_patterns(&after).is_empty());
    assert_eq!(exclude_additions(&after), "");
}

// --- Criteria ---

fn doc(criteria: &[&str]) -> DesignDoc {
    DesignDoc {
        title: String::new(),
        summary: String::new(),
        requirements: vec![],
        requirement_groups: vec![],
        acceptance_criteria: names(criteria),
        architecture: String::new(),
        open_questions: vec![],
        out_of_scope: vec![],
        unknown_sections: vec![],
    }
}

#[test]
fn test_extract_criteria_all_explicit() {
    let result = extract_criteria(&doc(&["AC-1: First", "AC-2: Second"]), "test.md", "now");
    assert_eq!(result.criteria.len(), 2);
    assert_eq!(result.criteria[0].id, "AC-1");
    assert_eq!(result.criteria[0].text, "First");
    assert_eq!(result.criteria[1].id, "AC-2");
    assert_eq!(result.criteria[1].text, "Second");
    assert_eq!(result.source_doc, "test.md");
    assert_eq!(result.extracted_at, "now");
}

#[test]
fn test_extract_criteria_all_auto() {
    let result = extract_criteria(&doc(&["First item", "Second item"]), "test.md", "now");
    assert_eq!(result.criteria[0].id, "AC-1");
    assert_eq!(result.criteria[0].text, "First item");
    assert_eq!(result.criteria[1].id, "AC-2");
    assert_eq!(result.criteria[1].text, "Second item");
    assert_eq!(result.criteria[0].criterion_type, "functional");
}

#[test]
fn test_extract_criteria_mixed_ids_skip_collisions() {
    let mixed = doc(&[
        "AC-1: Explicit first",
        "Auto assigned",
        "AC-3: Explicit third",
        "Another auto",
    ]);
    let result = extract_criteria(&mixed, "design.md", "now");
    assert_eq!(result.criteria[0].id, "AC-1");
    assert_eq!(result.criteria[1].id, "AC-2"); // skips AC-1, takes AC-2
    assert_eq!(result.criteria[2].id, "AC-3");
    assert_eq!(result.criteria[3].id, "AC-4"); // skips AC-3, takes AC-4
}

#[test]
fn a_claimed_number_is_skipped_however_it_is_written() {
    let result = extract_criteria(&doc(&["AC-01: Explicit", "Auto"]), "d.md", "now");
    assert_eq!(result.criteria[0].id, "AC-01");
    assert_eq!(result.criteria[1].id, "AC-2");
    let mixed = doc(&["First", "ac-002: Second", "AC-99999999999999999999: Far", "Third"]);
    let result = extract_criteria(&mixed, "d.md", "now");
    let ids: Vec<&str> = result.criteria.iter().map(|c| c.id.as_str()).collect();
    assert_eq!(ids, vec!["AC-1", "AC-002", "AC-99999999999999999999", "AC-3"]);
}

#[test]
fn patterns_behind_a_line_end_complete_an_exclude_file() {
    for content in ["", "KICKOFF.md", "*.log\n.kickoff-status\r", "KICKOFF.md\n\n"] {
        let missing = missing_exclude_patterns(content);
        let after = format!("{}\n{}", content, missing.join("\n"));
        assert!(missing_exclude_patterns(&after).is_empty());
        let after = format!("{}\n{}", content, exclude_additions(content));
        assert!(missing_exclude_patterns(&after).is_empty());
    }
}

// --- The machine ---

#[test]
fn test_preflight_check_passes_when_commands_available() {
    let result = preflight_check(
        &ContainerMode::Docker,
        &VerifyLevel::Local,
        Some("{}"),
        &Platform::Linux(LinuxDistro::Debian),
        &names(&["timeout", "docker"]),
        ASSISTANT,
    );
    let found = result.ok().unwrap();
    assert_eq!(found.timeout_cmd, "timeout");
    assert!(found.sandbox_command.is_none());
}

#[test]
fn test_preflight_check_missing_command_includes_hint() {
    let result = preflight_check(
        &ContainerMode::Podman,
        &VerifyLevel::Thorough,
        Some("{}"),
        &Platform::MacOS,
        &names(&["gtimeout"]),
        ASSISTANT,
    );
    let msg = result.err().unwrap();
    assert!(msg.contains("Pre-flight check failed"));
    assert!(msg.contains("podman"));
    assert!(msg.contains("GitHub CLI"));
    assert!(msg.contains("gh"));
}

#[test]
fn test_read_sandbox_command_not_configured() {
    assert!(read_sandbox_command(Some("{}")).is_none());
}

#[test]
fn test_read_sandbox_command_configured() {
    let cmd = read_sandbox_command(Some(
        r#"{"sandbox": {"command": "bwrap --bind {{worktree}} /workspace --"}}"#,
    ));
    assert_eq!(cmd.as_deref(), Some("bwrap --bind {{worktree}} /workspace --"));
}

#[test]
fn test_read_sandbox_command_empty_string_ignored() {
    assert!(read_sandbox_command(Some(r#"{"sandbox": {"command": ""}}"#)).is_none());
}

#[test]
fn test_preflight_check_validates_sandbox_binary() {
    let result = preflight_check(
        &ContainerMode::Local,
        &VerifyLevel::Local,
        Some(r#"{"sandbox": {"command": "crosslink_nonexistent_sandbox_xyz --isolate --"}}"#),
        &Platform::MacOS,
        &names(&["timeout", "tmux", "assistant"]),
        ASSISTANT,
    );
    let msg = result.err().unwrap();
    assert!(msg.contains("crosslink_nonexistent_sandbox_xyz"));
    assert!(msg.contains("sandbox.command"));
}

#[test]
fn a_local_launch_needs_a_session_and_the_assistant() {
    let msg = preflight_check(
        &ContainerMode::Local,
        &VerifyLevel::Local,
        None,
        &Platform::Linux(LinuxDistro::Arch),
        &names(&["timeout"]),
        ASSISTANT,
    )
    .err()
    .unwrap();
    assert!(msg.contains("`tmux` is not installed"));
    assert!(msg.contains("`assistant` CLI is not installed"));
    assert!(!msg.contains("GitHub CLI"));
}

#[test]
fn platforms_are_told_apart() {
    assert_eq!(detect_platform(true, false, None), Platform::MacOS);
    assert_eq!(detect_platform(false, true, None), Platform::Windows);
    assert_eq!(
        detect_platform(false, false, Some("ID=ubuntu\nID_LIKE=debian\n")),
        Platform::Linux(LinuxDistro::Debian)
    );
    assert_eq!(detect_linux_distro(Some("ID=fedora\n")), LinuxDistro::Fedora);
    assert_eq!(detect_linux_distro(Some("ID=Alpine\n")), LinuxDistro::Alpine);
    assert_eq!(detect_linux_distro(None), LinuxDistro::Other);
}

#[test]
fn the_time_limit_may_have_either_name() {
    assert_eq!(resolve_timeout_command(&Platform::MacOS, &names(&["gtimeout"])), Ok("gtimeout"));
    assert_eq!(
        resolve_timeout_command(&Platform::MacOS, &names(&["gtimeout", "timeout"])),
        Ok("timeout")
    );
    let message = resolve_timeout_command(&Platform::MacOS, &names(&[])).unwrap_err();
    assert!(message.starts_with("Neither `timeout` nor `gtimeout` found.\n"));
}

#[test]
fn test_read_watchdog_config_missing_file() {
    let cfg = read_watchdog_config(None);
    assert!(cfg.enabled);
    assert_eq!(cfg.staleness_secs, 300);
}

#[test]
fn test_read_watchdog_config_no_watchdog_key() {
    assert!(read_watchdog_config(Some("{}")).enabled);
}

#[test]
fn test_read_watchdog_config_custom_values() {
    let cfg = read_watchdog_config(Some(
        r#"{"watchdog": {"enabled": false, "staleness_secs": 600, "max_nudges": 10}}"#,
    ));
    assert!(!cfg.enabled);
    assert_eq!(cfg.staleness_secs, 600);
    assert_eq!(cfg.max_nudges, 10);
    assert_eq!(cfg.check_interval_secs, 120); // still default
}

#[test]
fn containers_mount_the_worktree_and_the_settings() {
    let script = build_agent_script(60, "opus", "Read", "assistant");
    assert_eq!(
        script,
        "cd /workspaces/repo && timeout 60s assistant --model opus --allowedTools 'Read' -- \"$(cat KICKOFF.md)\""
    );
    let args = container_args(
        "/w",
        "image",
        "driver--x",
        script.clone(),
        ".assistant",
        Some("/home/me".to_string()),
        None,
        Some("7".to_string()),
    );
    assert!(args.contains(&"crosslink-agent-driver--x".to_string()));
    assert!(args.contains(&"/home/me/.assistant:/host-auth:ro".to_string()));
    assert!(args.contains(&"HOST_UID=1000".to_string()));
    assert!(args.contains(&"HOST_GID=7".to_string()));
    assert_eq!(args.last(), Some(&script));
    assert_eq!(runtime_name(ContainerMode::Podman), "podman");
}

// --- Names and options ---

#[test]
fn levels_read_back() {
    for level in [VerifyLevel::Local, VerifyLevel::Ci, VerifyLevel::Thorough] {
        assert_eq!(parse_verify_level(verify_level_name(&level)).unwrap(), level);
    }
}

#[test]
fn unknown_options_are_named() {
    assert!(parse_container_mode("kubernetes").unwrap_err().contains("kubernetes"));
    assert!(parse_verify_level("extreme").unwrap_err().contains("extreme"));
    assert!(parse_duration("abc").unwrap_err().contains("abc"));
    assert!(duration_fits("1h"));
    assert!(!duration_fits("18446744073709551615h"));
}

#[test]
fn an_agent_leads_to_its_worktree() {
    assert_eq!(child_agent_id(None, "add-retry"), "driver--add-retry");
    assert_eq!(child_agent_id(Some("lead"), "add-retry"), "lead--add-retry");
    assert_eq!(agent_worktree_slug("lead--add-retry"), "add-retry");
    assert_eq!(agent_worktree_slug("feature/add-retry"), "add-retry");
    assert_eq!(agent_worktree_slug("feat-add-retry"), "add-retry");
    assert_eq!(suffix_session_name("feat-add-retry", 42), "feat-add-retry-42");
    assert_eq!(try_slugify("Add Retry!"), Some("add-retry".to_string()));
}

// --- The launch ---

fn opts(container: ContainerMode, dry_run: bool) -> KickoffOpts<'static> {
    KickoffOpts {
        description: "Add retry logic",
        issue: None,
        container,
        verify: VerifyLevel::Local,
        model: "opus",
        image: "img",
        timeout: 3600,
        dry_run,
        branch: None,
        quiet: false,
        design_doc: None,
        doc_path: None,
        assistant: ASSISTANT,
    }
}

fn start(request: &Request) -> Launch {
    begin(
        request,
        None,
        &Platform::MacOS,
        &names(&["timeout", "tmux", "assistant", "docker"]),
    )
    .ok()
    .unwrap()
    .unwrap()
}

fn up_to_the_agent(launch: &mut Launch, request: &Request) -> Action {
    let a = launch.advance(request, Event::Root(Some("/repo".to_string())));
    assert!(matches!(a, Action::CreateIssue(title, _, _, _) if title == "Add retry logic"));
    let a = launch.advance(request, Event::IssueCreated(7));
    match a {
        Action::CheckWorktree(say, path) => {
            assert_eq!(say.as_deref(), Some("Created issue #7\n"));
            assert_eq!(path, "/repo/.worktrees/add-retry-logic");
        }
        _ => panic!("expected a look at the worktree"),
    }
    let a = launch.advance(request, Event::WorktreeExists(false));
    assert!(matches!(a, Action::AddWorktree(_, branch, base) if branch == "feature/add-retry-logic" && base == "HEAD"));
    let a = launch.advance(request, Event::WorktreeAdded(Ok(())));
    assert!(matches!(a, Action::ListFiles(dir) if dir == "/repo"));
    let a = launch.advance(request, Event::Files(names(&["Cargo.toml"])));
    match a {
        Action::Write(path, content, criteria) => {
            assert_eq!(path, "/repo/.worktrees/add-retry-logic/KICKOFF.md");
            assert!(content.contains("cargo test"));
            assert!(criteria.is_none());
        }
        _ => panic!("expected a prompt"),
    }
    launch.advance(request, Event::Written(None))
}

#[test]
fn a_dry_run_launches_nothing() {
    let o = opts(ContainerMode::Local, true);
    let request = Request::Feature(&o);
    // A dry run needs nothing of the machine.
    let mut launch =
        begin(&request, None, &Platform::MacOS, &names(&[])).ok().unwrap().unwrap();
    match up_to_the_agent(&mut launch, &request) {
        Action::Finish(out) => {
            assert!(out.contains("\n---\nWorktree: /repo/.worktrees/add-retry-logic\n"));
            assert!(out.ends_with("Agent:    driver--add-retry-logic\n"));
        }
        _ => panic!("expected the end"),
    }
    assert_eq!(launch.stage, Stage::Done);
}

#[test]
fn a_local_launch_starts_a_session() {
    let o = opts(ContainerMode::Local, false);
    let request = Request::Feature(&o);
    let mut launch = start(&request);
    let a = up_to_the_agent(&mut launch, &request);
    assert!(matches!(a, Action::InitAgent(id, _) if id == "driver--add-retry-logic"));
    let a = launch.advance(&request, Event::AgentReady);
    assert!(matches!(a, Action::FindSession(name) if name == "feat-add-retry-logic"));
    let a = launch.advance(&request, Event::SessionKnown(true, 1_230_042, None));
    match a {
        Action::StartSession(name, dir, command, script) => {
            assert_eq!(name, "feat-add-retry-logic-42");
            assert_eq!(dir, "/repo/.worktrees/add-retry-logic");
            assert!(command.starts_with("timeout 3600s env -u ASSISTANT_SESSION assistant --model opus"));
            assert!(script.unwrap().contains("feat-add-retry-logic-42"));
        }
        _ => panic!("expected a session"),
    }
    let a = launch.advance(&request, Event::Started);
    assert!(matches!(a, Action::Finish(out) if out.contains("tmux attach -t feat-add-retry-logic-42")));
}

#[test]
fn a_container_launch_runs_the_container() {
    let o = opts(ContainerMode::Docker, false);
    let request = Request::Feature(&o);
    let mut launch = start(&request);
    up_to_the_agent(&mut launch, &request);
    let a = launch.advance(&request, Event::AgentReady);
    assert!(matches!(a, Action::InspectHost(runtime) if runtime == "docker"));
    let a = launch.advance(&request, Event::HostKnown(true, None, None, None));
    match a {
        Action::RunContainer(runtime, args) => {
            assert_eq!(runtime, "docker");
            assert!(args.contains(&"/root/.assistant:/host-auth:ro".to_string()));
        }
        _ => panic!("expected a container"),
    }
    let a = launch.advance(&request, Event::ContainerStarted("0123456789abcdef\n".to_string()));
    assert!(matches!(a, Action::Finish(out) if out.contains("0123456789ab") && !out.contains("0123456789abc")));
}

#[test]
fn a_quiet_container_launch_prints_the_whole_identifier() {
    let mut o = opts(ContainerMode::Docker, false);
    o.quiet = true;
    let request = Request::Feature(&o);
    let mut launch = start(&request);
    launch.advance(&request, Event::Root(Some("/repo".to_string())));
    let a = launch.advance(&request, Event::IssueCreated(7));
    assert!(matches!(a, Action::CheckWorktree(None, _)));
    launch.advance(&request, Event::WorktreeExists(false));
    launch.advance(&request, Event::WorktreeAdded(Ok(())));
    launch.advance(&request, Event::Files(Vec::new()));
    launch.advance(&request, Event::Written(None));
    launch.advance(&request, Event::AgentReady);
    launch.advance(&request, Event::HostKnown(true, None, None, None));
    let a = launch.advance(&request, Event::ContainerStarted("0123456789a\u{e9}f\n".to_string()));
    assert!(matches!(a, Action::Finish(out) if out == "0123456789a\u{e9}f\n"));
}

#[test]
fn a_worktree_that_is_there_stops_a_launch() {
    let o = opts(ContainerMode::Local, true);
    let request = Request::Feature(&o);
    let mut launch = start(&request);
    launch.advance(&request, Event::Root(Some("/repo".to_string())));
    launch.advance(&request, Event::IssueCreated(7));
    let a = launch.advance(&request, Event::WorktreeExists(true));
    assert!(matches!(a, Action::Fail(m) if m.starts_with("Worktree already exists at /repo/.worktrees/add-retry-logic")));
}

#[test]
fn failures_end_a_launch() {
    let mut o = opts(ContainerMode::Local, true);
    o.issue = Some(9);
    let request = Request::Feature(&o);
    let mut launch = start(&request);
    assert!(matches!(launch.advance(&request, Event::Root(None)), Action::Fail(m) if m == "Not inside a git repository"));
    let mut launch = start(&request);
    launch.advance(&request, Event::Root(Some("/repo".to_string())));
    assert!(matches!(launch.advance(&request, Event::IssueFound(false)), Action::Fail(m) if m == "Issue #9 not found"));
    let mut launch = start(&request);
    launch.advance(&request, Event::Root(Some("/repo".to_string())));
    launch.advance(&request, Event::IssueFound(true));
    launch.advance(&request, Event::WorktreeExists(false));
    let a = launch.advance(&request, Event::WorktreeAdded(Err(" fatal \n".to_string())));
    assert!(matches!(a, Action::Fail(m) if m == "Failed to create worktree: fatal"));
}

#[test]
fn an_analysis_writes_its_own_prompt() {
    let mut d = doc(&[]);
    d.title = "Batch Retry".to_string();
    let o = PlanOpts {
        doc: &d,
        model: "opus",
        timeout: 60,
        dry_run: true,
        issue: None,
        quiet: true,
        assistant: ASSISTANT,
    };
    let request = Request::Analysis(&o);
    let mut launch = start(&request);
    let a = launch.advance(&request, Event::Root(Some("/repo".to_string())));
    assert!(matches!(a, Action::CheckWorktree(None, path) if path == "/repo/.worktrees/plan-batch-retry"));
    launch.advance(&request, Event::WorktreeExists(false));
    let a = launch.advance(&request, Event::WorktreeAdded(Ok(())));
    match a {
        Action::Write(path, content, _) => {
            assert_eq!(path, "/repo/.worktrees/plan-batch-retry/PLAN_KICKOFF.md");
            assert!(content.starts_with("# KICKOFF PLAN: Gap Analysis — Batch Retry"));
        }
        _ => panic!("expected a prompt"),
    }
}

#[test]
fn a_machine_that_lacks_something_stops_a_launch_at_once() {
    let o = opts(ContainerMode::Local, false);
    let message = begin(&Request::Feature(&o), None, &Platform::MacOS, &names(&[])).err().unwrap();
    assert!(message.contains("Pre-flight check failed"));
}
