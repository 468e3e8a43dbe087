//! Names, options, tools and commands of a launch.

use crosslink::assistant::Assistant;
use crosslink::commands::kickoff::conventions::{
    build_allowed_tools, build_allowed_tools_plan, missing_exclude_patterns, ProjectConventions,
};
use crosslink::commands::kickoff::criteria::parse_criterion_id;
use crosslink::commands::kickoff::naming::{rand_suffix, slugify, tmux_session_name};
use crosslink::commands::kickoff::options::{
    parse_container_mode, parse_duration, parse_verify_level, verify_level_name, ContainerMode,
    VerifyLevel,
};
use crosslink::commands::kickoff::watchdog::{
    build_agent_command, build_watchdog_script, WatchdogConfig,
};

const ASSISTANT: Assistant<'static> = Assistant {
    program: "assistant",
    title: "The Assistant",
    brew_package: "assistant-cli",
    npm_package: "@example/assistant-cli",
    session_variable: "ASSISTANT_SESSION",
    dir: ".assistant",
    guide: "ASSISTANT.md",
};

#[test]
fn test_slugify_basic() {
    assert_eq!(slugify("add batch retry logic"), "add-batch-retry-logic");
}

#[test]
fn test_slugify_special_chars() {
    assert_eq!(
        slugify("Fix: authentication (timeout) on slow connections!"),
        "fix-authentication-timeout-on-slow-connections"
    );
}

#[test]
fn test_slugify_truncation() {
    let long_desc = "add a very long feature description that definitely exceeds the sixty character limit for branch slugs";
    let slug = slugify(long_desc);
    assert!(slug.len() <= 60, "slug too long: {} chars", slug.len());
    assert!(!slug.ends_with('-'));
}

#[test]
fn test_slugify_leading_trailing_hyphens() {
    assert_eq!(slugify("  hello world  "), "hello-world");
}

#[test]
fn test_parse_duration_hours() {
    assert_eq!(parse_duration("1h").unwrap(), 3600);
    assert_eq!(parse_duration("2h").unwrap(), 7200);
}

#[test]
fn test_parse_duration_minutes() {
    assert_eq!(parse_duration("30m").unwrap(), 1800);
}

#[test]
fn test_parse_duration_seconds() {
    assert_eq!(parse_duration("90s").unwrap(), 90);
}

#[test]
fn test_parse_duration_bare_number() {
    assert_eq!(parse_duration("120").unwrap(), 120);
}

#[test]
fn test_parse_duration_zero() {
    assert!(parse_duration("0h").is_err());
}

#[test]
fn test_parse_duration_empty() {
    assert!(parse_duration("").is_err());
}

#[test]
fn test_parse_duration_invalid() {
    assert!(parse_duration("abc").is_err());
}

#[test]
fn test_parse_container_mode() {
    assert_eq!(parse_container_mode("none").unwrap(), ContainerMode::Local);
    assert_eq!(parse_container_mode("local").unwrap(), ContainerMode::Local);
    assert_eq!(
        parse_container_mode("docker").unwrap(),
        ContainerMode::Docker
    );
    assert_eq!(
        parse_container_mode("podman").unwrap(),
        ContainerMode::Podman
    );
    assert_eq!(
        parse_container_mode("Docker").unwrap(),
        ContainerMode::Docker
    );
    assert!(parse_container_mode("kubernetes").is_err());
}

#[test]
fn test_parse_verify_level() {
    assert_eq!(parse_verify_level("local").unwrap(), VerifyLevel::Local);
    assert_eq!(parse_verify_level("ci").unwrap(), VerifyLevel::Ci);
    assert_eq!(
        parse_verify_level("thorough").unwrap(),
        VerifyLevel::Thorough
    );
    assert_eq!(parse_verify_level("CI").unwrap(), VerifyLevel::Ci);
    assert!(parse_verify_level("extreme").is_err());
}

#[test]
fn test_tmux_session_name() {
    assert_eq!(
        tmux_session_name("add-batch-retry-logic"),
        "feat-add-batch-retry-logic"
    );
}

#[test]
fn test_tmux_session_name_sanitization() {
    assert_eq!(tmux_session_name("fix.auth:bug"), "feat-fix-auth-bug");
}

#[test]
fn test_tmux_session_name_truncation() {
    let long = "a".repeat(60);
    let name = tmux_session_name(&long);
    assert!(name.len() <= 50);
}

#[test]
fn test_build_allowed_tools_base() {
    let conventions = ProjectConventions {
        test_command: None,
        lint_commands: vec![],
        allowed_tools: vec![],
    };
    let tools = build_allowed_tools(&conventions, &VerifyLevel::Local);
    assert!(tools.contains("Read"));
    assert!(tools.contains("Bash(crosslink *)"));
    assert!(!tools.contains("Bash(gh *)"));
}

#[test]
fn tools_are_listed_in_order() {
    let conventions = ProjectConventions {
        test_command: None,
        lint_commands: vec![],
        allowed_tools: vec!["Bash(cargo *)".to_string(), "Bash(npm *)".to_string()],
    };
    let plain = build_allowed_tools(&conventions, &VerifyLevel::Local);
    assert!(plain.starts_with("Read,Write,Edit,Glob,Grep,Skill,Task,"));
    assert!(plain.ends_with(",Bash(echo *),Bash(crosslink *),Bash(cargo *),Bash(npm *)"));
    assert_eq!(plain.split(',').count(), 24);
    let checked = build_allowed_tools(&conventions, &VerifyLevel::Ci);
    assert!(checked.ends_with(
        ",Bash(crosslink *),Bash(gh *),Bash(sleep *),Bash(cargo *),Bash(npm *)"
    ));
    assert_eq!(
        build_allowed_tools_plan(),
        "Read,Glob,Grep,WebSearch,WebFetch,Bash(git status *),Bash(git log *),Bash(git diff *),\
         Bash(git show *),Bash(git branch *),Bash(ls *),Bash(cat *),Bash(head *),Bash(tail *),\
         Bash(wc *),Bash(crosslink *)"
    );
}

#[test]
fn test_build_allowed_tools_ci() {
    let conventions = ProjectConventions {
        test_command: None,
        lint_commands: vec![],
        allowed_tools: vec!["Bash(cargo *)".to_string()],
    };
    let tools = build_allowed_tools(&conventions, &VerifyLevel::Ci);
    assert!(tools.contains("Bash(gh *)"));
    assert!(tools.contains("Bash(cargo *)"));
}

#[test]
fn test_rand_suffix_range() {
    let s = rand_suffix(987_654_321);
    assert!(s < 10000);
}

#[test]
fn test_slugify_all_special_chars() {
    assert_eq!(slugify("!!!@@@###"), "");
}

#[test]
fn test_slugify_single_word() {
    assert_eq!(slugify("refactor"), "refactor");
}

#[test]
fn test_slugify_unicode() {
    // Rust's is_alphanumeric() includes Unicode letters like é
    assert_eq!(slugify("add café support"), "add-café-support");
}

#[test]
fn test_slugify_consecutive_separators() {
    assert_eq!(slugify("fix -- the -- bug"), "fix-the-bug");
}

#[test]
fn test_slugify_numbers() {
    assert_eq!(slugify("add v2 api endpoint"), "add-v2-api-endpoint");
}

#[test]
fn test_slugify_empty() {
    assert_eq!(slugify(""), "");
}

#[test]
fn test_slugify_truncation_cuts_at_word_boundary() {
    // 61+ chars, should cut at last hyphen before 60
    let desc = "implement-the-very-important-feature-that-does-something-really-great";
    let slug = slugify(desc);
    assert!(slug.len() <= 60);
    assert!(!slug.ends_with('-'));
}

#[test]
fn test_verify_level_name() {
    assert_eq!(verify_level_name(&VerifyLevel::Local), "local");
    assert_eq!(verify_level_name(&VerifyLevel::Ci), "ci");
    assert_eq!(verify_level_name(&VerifyLevel::Thorough), "thorough");
}

#[test]
fn test_missing_exclude_patterns_empty_file() {
    let patterns = missing_exclude_patterns("");
    assert_eq!(
        patterns,
        vec![
            "KICKOFF.md",
            ".kickoff-status",
            "PLAN_KICKOFF.md",
            ".kickoff-plan.json",
            ".kickoff-criteria.json",
            ".kickoff-report.json",
        ]
    );
}

#[test]
fn test_missing_exclude_patterns_one_present() {
    let patterns = missing_exclude_patterns("KICKOFF.md\nsome-other-file\n");
    assert!(patterns.contains(&".kickoff-status"));
    assert!(patterns.contains(&"PLAN_KICKOFF.md"));
    assert!(patterns.contains(&".kickoff-plan.json"));
    assert!(patterns.contains(&".kickoff-criteria.json"));
    assert!(patterns.contains(&".kickoff-report.json"));
    assert!(!patterns.contains(&"KICKOFF.md"));
}

#[test]
fn test_missing_exclude_patterns_all_present() {
    let patterns = missing_exclude_patterns(
        "KICKOFF.md\n.kickoff-status\nPLAN_KICKOFF.md\n.kickoff-plan.json\n.kickoff-criteria.json\n.kickoff-report.json\n",
    );
    assert!(patterns.is_empty());
}

#[test]
fn test_missing_exclude_patterns_with_whitespace() {
    let patterns = missing_exclude_patterns(
        "  KICKOFF.md  \n  .kickoff-status  \n  PLAN_KICKOFF.md  \n  .kickoff-plan.json  \n  .kickoff-criteria.json  \n  .kickoff-report.json  \n",
    );
    assert!(patterns.is_empty());
}

#[test]
fn test_build_allowed_tools_thorough() {
    let conventions = ProjectConventions {
        test_command: None,
        lint_commands: vec![],
        allowed_tools: vec![],
    };
    let tools = build_allowed_tools(&conventions, &VerifyLevel::Thorough);
    assert!(tools.contains("Bash(gh *)"));
    assert!(tools.contains("Bash(sleep *)"));
}

#[test]
fn test_build_allowed_tools_includes_project_tools() {
    let conventions = ProjectConventions {
        test_command: None,
        lint_commands: vec![],
        allowed_tools: vec!["Bash(cargo *)".to_string(), "Bash(npm *)".to_string()],
    };
    let tools = build_allowed_tools(&conventions, &VerifyLevel::Local);
    assert!(tools.contains("Bash(cargo *)"));
    assert!(tools.contains("Bash(npm *)"));
    assert!(!tools.contains("Bash(gh *)"));
}

#[test]
fn test_parse_duration_whitespace() {
    assert_eq!(
        parse_duration("  30m  ").unwrap(),
        1800
    );
}

#[test]
fn test_parse_duration_large_value() {
    assert_eq!(parse_duration("24h").unwrap(), 86400);
}

#[test]
fn test_tmux_session_name_empty() {
    assert_eq!(tmux_session_name(""), "feat-");
}

#[test]
fn test_build_allowed_tools_plan_is_read_only() {
    let tools = build_allowed_tools_plan();
    assert!(tools.contains("Read"));
    assert!(tools.contains("Glob"));
    assert!(tools.contains("Grep"));
    assert!(!tools.contains("Write"));
    assert!(!tools.contains("Edit"));
}

#[test]
fn test_build_allowed_tools_plan_no_destructive_bash() {
    let tools = build_allowed_tools_plan();
    assert!(!tools.contains("Bash(mkdir"));
    assert!(!tools.contains("Bash(touch"));
    assert!(!tools.contains("Bash(echo"));
    // But read-only bash is allowed
    assert!(tools.contains("Bash(git status"));
    assert!(tools.contains("Bash(ls"));
}

#[test]
fn test_missing_exclude_patterns_includes_plan_files() {
    let patterns = missing_exclude_patterns("");
    assert!(patterns.contains(&"PLAN_KICKOFF.md"));
    assert!(patterns.contains(&".kickoff-plan.json"));
}

#[test]
fn test_parse_criterion_id_with_prefix() {
    let (id, text) = parse_criterion_id("AC-1: Tests pass");
    assert_eq!(id, "AC-1");
    assert_eq!(text, "Tests pass");
}

#[test]
fn test_parse_criterion_id_without_prefix() {
    let (id, text) = parse_criterion_id("Tests pass");
    assert_eq!(id, "");
    assert_eq!(text, "Tests pass");
}

#[test]
fn test_parse_criterion_id_multidigit() {
    let (id, text) = parse_criterion_id("AC-12: Complex thing");
    assert_eq!(id, "AC-12");
    assert_eq!(text, "Complex thing");
}

#[test]
fn test_parse_criterion_id_lowercase() {
    let (id, text) = parse_criterion_id("ac-3: Lower case");
    assert_eq!(id, "AC-3");
    assert_eq!(text, "Lower case");
}

#[test]
fn test_exclude_patterns_includes_report_files() {
    let patterns = missing_exclude_patterns("");
    assert!(patterns.contains(&".kickoff-criteria.json"));
    assert!(patterns.contains(&".kickoff-report.json"));
}

#[test]
fn test_build_agent_command_without_sandbox() {
    let cmd = build_agent_command(
        "timeout",
        3600,
        "opus",
        "Read,Write",
        "KICKOFF.md",
        None,
        "/tmp/worktree",
        ASSISTANT,
    );
    assert_eq!(
        cmd,
        "timeout 3600s env -u ASSISTANT_SESSION assistant --model opus --allowedTools 'Read,Write' -- \"$(cat KICKOFF.md)\""
    );
}

#[test]
fn test_build_agent_command_with_sandbox() {
    let cmd = build_agent_command(
        "timeout",
        3600,
        "opus",
        "Read,Write",
        "KICKOFF.md",
        Some("bwrap --bind {{worktree}} /workspace --"),
        "/tmp/my-worktree",
        ASSISTANT,
    );
    assert!(cmd.starts_with("timeout 3600s bwrap --bind /tmp/my-worktree /workspace --"));
    assert!(cmd.contains("env -u ASSISTANT_SESSION assistant"));
}

#[test]
fn test_build_agent_command_plan_kickoff() {
    let cmd = build_agent_command(
        "gtimeout",
        1800,
        "sonnet",
        "Read,Glob",
        "PLAN_KICKOFF.md",
        None,
        "/tmp/worktree",
        ASSISTANT,
    );
    assert!(cmd.starts_with("gtimeout 1800s"));
    assert!(cmd.contains("$(cat PLAN_KICKOFF.md)"));
}

#[test]
fn test_plan_tools_are_read_only() {
    let tools = build_allowed_tools_plan();
    // Plan mode must NOT include write/edit tools
    assert!(
        !tools.contains("Write"),
        "plan tools must not include Write"
    );
    assert!(!tools.contains("Edit"), "plan tools must not include Edit");
    assert!(
        !tools.contains("Bash(git commit"),
        "plan tools must not allow git commit"
    );
    assert!(
        !tools.contains("Bash(git push"),
        "plan tools must not allow git push"
    );
    // Plan mode MUST include read-only tools
    assert!(tools.contains("Read"));
    assert!(tools.contains("Glob"));
    assert!(tools.contains("Grep"));
    assert!(tools.contains("Bash(git log"));
    assert!(tools.contains("Bash(git diff"));
}

#[test]
fn test_watchdog_config_defaults() {
    let cfg = WatchdogConfig::default();
    assert!(cfg.enabled);
    assert_eq!(cfg.staleness_secs, 300);
    assert_eq!(cfg.max_nudges, 5);
    assert_eq!(cfg.check_interval_secs, 120);
    assert_eq!(cfg.grace_period_secs, 300);
}

#[test]
fn test_build_watchdog_script_contains_key_elements() {
    let cfg = WatchdogConfig {
        enabled: true,
        staleness_secs: 300,
        max_nudges: 3,
        check_interval_secs: 60,
        grace_period_secs: 120,
    };
    let script = build_watchdog_script("feat-my-agent", "/tmp/wt", &cfg);
    assert!(script.contains("sleep 120")); // grace period
    assert!(script.contains("sleep 60")); // check interval
    assert!(script.contains(".kickoff-status"));
    assert!(script.contains("feat-my-agent"));
    assert!(script.contains("last-heartbeat"));
    assert!(script.contains("continue working"));
    assert!(script.contains("NUDGES"));
    assert!(script.contains("-gt 300")); // staleness threshold
    assert!(script.contains("-ge 3")); // max nudges
}
