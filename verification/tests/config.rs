//! The configuration: reading, changing, resetting and comparing it.

use crosslink::commands::config;
use crosslink::commands::config::{
    diff, format_value, get, list, reset, run, show, Config, ConfigCommands, Entry, Item,
    SettingValue,
};

fn config_of(entries: Vec<(&str, SettingValue)>) -> Config {
    Config {
        entries: entries
            .into_iter()
            .map(|(key, value)| Entry { key: key.to_string(), value })
            .collect(),
    }
}

fn text(s: &str) -> SettingValue {
    SettingValue::Text(s.to_string())
}

fn texts(items: &[&str]) -> SettingValue {
    SettingValue::List(items.iter().map(|s| Item::Text(s.to_string())).collect())
}

fn defaults() -> Config {
    config_of(vec![
        ("tracking_mode", text("strict")),
        ("intervention_tracking", SettingValue::Flag(true)),
        ("blocked_git_commands", texts(&["git push"])),
        ("unlisted", SettingValue::Other("7".to_string())),
    ])
}

#[test]
fn a_setting_is_found_after_it_is_set() {
    let change = config::set(&defaults(), "tracking_mode", Some("relaxed"), None, None).ok().unwrap();
    let changed = change.config.unwrap();
    assert_eq!(changed.get("tracking_mode"), Some(&text("relaxed")));
    assert_eq!(changed.get("intervention_tracking"), Some(&SettingValue::Flag(true)));
    assert_eq!(changed.get("unlisted"), Some(&SettingValue::Other("7".to_string())));
    assert!(change.out.contains("relaxed"));
}

#[test]
fn flags_take_only_flags() {
    let change = config::set(&defaults(), "intervention_tracking", Some("false"), None, None).ok().unwrap();
    assert_eq!(
        change.config.unwrap().get("intervention_tracking"),
        Some(&SettingValue::Flag(false))
    );
    assert!(config::set(&defaults(), "intervention_tracking", Some("maybe"), None, None).is_err());
}

#[test]
fn settings_of_one_value_take_only_their_options() {
    let error = config::set(&defaults(), "tracking_mode", Some("lax"), None, None).err().unwrap();
    assert!(error.contains("strict"));
    let error = config::set(&defaults(), "no_such_key", Some("x"), None, None).err().unwrap();
    assert!(error.contains("no_such_key"));
}

#[test]
fn removing_undoes_adding() {
    let added = config::set(&defaults(), "blocked_git_commands", None, Some("git merge"), None).ok().unwrap();
    assert_eq!(added.out, "Added \"git merge\" to blocked_git_commands\n");
    let with = added.config.unwrap();
    assert_eq!(with.get("blocked_git_commands"), Some(&texts(&["git push", "git merge"])));
    let removed = config::set(&with, "blocked_git_commands", None, None, Some("git merge")).ok().unwrap();
    assert_eq!(
        removed.config.unwrap().get("blocked_git_commands"),
        defaults().get("blocked_git_commands")
    );
    let again = config::set(&with, "blocked_git_commands", None, Some("git merge"), None).ok().unwrap();
    assert_eq!(again.out, "\"git merge\" already in blocked_git_commands\n");
    assert!(again.config.is_none());
}

#[test]
fn a_list_is_replaced_by_items_between_commas() {
    let change = config::set(&defaults(), "blocked_git_commands", Some("a, b"), None, None).ok().unwrap();
    assert_eq!(change.config.unwrap().get("blocked_git_commands"), Some(&texts(&["a", "b"])));
    let error = config::set(&defaults(), "blocked_git_commands", None, None, None).err().unwrap();
    assert!(error.starts_with("Usage: crosslink config set blocked_git_commands"));
}

#[test]
fn resetting_leaves_no_difference() {
    let changed = config::set(&defaults(), "tracking_mode", Some("relaxed"), None, None)
        .ok()
        .unwrap()
        .config
        .unwrap();
    assert!(diff(&changed, &defaults()).contains("tracking_mode"));
    let one = reset(&changed, &defaults(), Some("tracking_mode")).ok().unwrap().config.unwrap();
    assert_eq!(one.get("tracking_mode"), Some(&text("strict")));
    let all = reset(&changed, &defaults(), None).ok().unwrap().config.unwrap();
    assert!(!diff(&all, &defaults()).contains("tracking_mode"));
}

#[test]
fn values_are_shown() {
    assert_eq!(format_value(&SettingValue::Flag(true)), "true");
    assert_eq!(format_value(&text("strict")), "strict");
    assert!(get(&defaults(), "tracking_mode").unwrap().contains("strict"));
    assert!(get(&defaults(), "no_such_key").is_err());
    let shown = show(&defaults(), &defaults());
    assert!(shown.contains("tracking_mode"));
    let listed = list(&defaults());
    assert!(listed.contains("KEY"));
    assert!(listed.contains("reminder_drift_threshold"));
}

#[test]
fn commands_are_carried_out() {
    let change = run(&ConfigCommands::Show, &defaults(), &defaults()).ok().unwrap();
    assert!(change.config.is_none());
    let command = ConfigCommands::Change {
        key: "tracking_mode".to_string(),
        value: Some("normal".to_string()),
        add: None,
        remove: None,
    };
    assert!(run(&command, &defaults(), &defaults()).ok().unwrap().config.is_some());
}
