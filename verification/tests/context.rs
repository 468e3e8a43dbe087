//! Measuring and checking what is injected into prompts.

use crosslink::assistant::Assistant;
use crosslink::commands::context::{
    check, detect_active_languages, expected_command_at, expected_hook_at, expected_rule_at,
    extension_of, hook_config_section, is_rule_active, is_searched, measure, measure_rules, measure_skills, percent, run,
    ConfigFile, ContextCommands, ContextTask, FileEntry, Measurement, EXPECTED_COMMANDS,
    EXPECTED_HOOKS, EXPECTED_RULES, REMINDER_BYTES,
};

const ASSISTANT: Assistant<'static> = Assistant {
    program: "assistant",
    title: "The Assistant",
    brew_package: "assistant-cli",
    npm_package: "@example/assistant-cli",
    session_variable: "ASSISTANT_SESSION",
    dir: ".assistant",
    guide: "ASSISTANT.md",
};

fn file(name: &str, size: usize) -> FileEntry {
    FileEntry { name: name.to_string(), size }
}

fn names(list: &[&str]) -> Vec<String> {
    list.iter().map(|s| s.to_string()).collect()
}

#[test]
fn languages_are_known_by_their_manifests_once() {
    let dirs = vec![names(&["Cargo.toml", "pyproject.toml"]), names(&["requirements.txt"])];
    let languages = detect_active_languages(&dirs, &Vec::new());
    assert_eq!(languages.iter().filter(|l| *l == "Python").count(), 1);
    assert!(languages.contains(&"Rust".to_string()));
    assert_eq!(extension_of("a.b.rs").as_deref(), Some("rs"));
}

#[test]
fn rules_of_other_languages_are_inactive() {
    let languages = names(&["Rust"]);
    assert!(is_rule_active("global.md", &languages));
    assert!(is_rule_active("rust.md", &languages));
    assert!(!is_rule_active("python.md", &languages));
}

fn measurement() -> Measurement {
    let languages = names(&["Rust"]);
    Measurement {
        rules: measure_rules(
            &vec![file("rust.md", 400), file("python.md", 300), file("global.md", 100)],
            &vec![file("rust.md", 500)],
            &languages,
        ),
        languages,
        guide_size: 40,
        skills: Some(measure_skills(&vec![file("b.md", 8), file("a.md", 4)])),
    }
}

#[test]
fn active_rules_are_a_part_of_all_rules() {
    let m = measurement();
    let (total, active) = m.rule_totals();
    assert!(active <= total);
    assert!(active > 0);
    let (always, adaptive, saved) = m.savings();
    assert_eq!(saved, always - adaptive);
    assert!(adaptive >= REMINDER_BYTES);
}

#[test]
fn a_measurement_has_its_sections() {
    let out = measure(&measurement(), ASSISTANT);
    assert!(out.contains("\n## ASSISTANT.md\n"));
    assert!(out.contains("\n## Skill files (.assistant/commands/)\n"));
    assert!(out.contains(" tokens, 69%)\n"), "{out}");
    assert!(out.find("a.md").unwrap() < out.find("b.md").unwrap());
}

#[test]
fn shares_are_rounded_to_the_nearest_number() {
    assert_eq!(percent(20000, 32000), 62);
    assert_eq!(percent(20000, 160000), 12);
    assert_eq!(percent(20000, 4_000_000), 0);
    for whole in [28200usize, 28201, 31999, 32000, 32001, 53333, 57143, 160000, 800000, 3_999_999] {
        let share = 20000f64 / whole as f64 * 100.0;
        assert_eq!(percent(20000, whole).to_string(), format!("{share:.0}"));
    }
    for whole in 28200usize..60000 {
        let share = 20000f64 / whole as f64 * 100.0;
        assert_eq!(percent(20000, whole).to_string(), format!("{share:.0}"));
    }
}

#[test]
fn a_complete_installation_passes() {
    let rules: Vec<String> = (0..27)
        .map(|i| crosslink::commands::context::rule_file_at(i).to_string())
        .collect();
    let hooks: Vec<String> = (0..EXPECTED_HOOKS).map(|i| expected_hook_at(i).to_string()).collect();
    let commands: Vec<String> =
        (0..EXPECTED_COMMANDS).map(|i| expected_command_at(i).to_string()).collect();
    let config = ConfigFile::Content("{\"tracking_mode\": \"strict\"}".to_string());
    let (out, problems) = check(&rules, &hooks, &commands, &config);
    assert_eq!(problems, 0, "{out}");
    assert!(out.contains("All checks passed."));

    let (out, problems) = check(&Vec::new(), &hooks, &commands, &ConfigFile::Missing);
    assert!(problems as usize >= EXPECTED_RULES);
    assert!(out.contains(expected_rule_at(0)));
    let (out, _) = check(&rules, &hooks, &commands, &ConfigFile::Content("{".to_string()));
    assert!(out.contains("INVALID"));
    let (out, _) = check(&rules, &hooks, &commands, &ConfigFile::Unreadable("denied".to_string()));
    assert!(out.contains("denied"));
}

#[test]
fn the_hook_configuration_is_shown() {
    assert!(!hook_config_section(Some("{\"tracking_mode\": \"relaxed\"}")).is_empty());
}

#[test]
fn both_commands_need_the_project() {
    assert_eq!(run(ContextCommands::Check, None, ASSISTANT).unwrap_err(), "Cannot determine project root");
    assert_eq!(
        run(ContextCommands::Check, Some("/p"), ASSISTANT).unwrap(),
        ContextTask::Check { settings_dir: "/p/.assistant".to_string() }
    );
}

#[test]
fn sums_beyond_a_machine_word_are_told() {
    assert!(measurement().can_be_summed());
    let mut large = measurement();
    large.rules[0].size = usize::MAX - 30000;
    assert!(!large.can_be_summed());
    let mut skills = measurement();
    skills.skills = Some(measure_skills(&vec![file("b.md", usize::MAX), file("a.md", 1)]));
    assert!(!skills.can_be_summed());
}

#[test]
fn hidden_directories_are_passed_over() {
    assert!(is_searched("crates"));
    assert!(!is_searched(".git"));
}
