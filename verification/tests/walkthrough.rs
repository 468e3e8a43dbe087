//! The walkthrough of the settings.

use crosslink::commands::config::{Config, Entry, SettingValue};
use crosslink::commands::config_registry::{
    find_registry_key, preset_value, registry_key, type_label, ConfigGroup, ConfigType,
    ConfigValue, WalkthroughCore, REGISTRY_LEN,
};
use crosslink::commands::init::screens::{Progress, Screen};
use crosslink::commands::init::walkthrough::{
    alias_installed, apply_tui_choices, detect_shell, plan_shell_alias, AliasStep,
    InitWalkthroughApp, Key, TuiChoices,
};

fn app() -> InitWalkthroughApp {
    InitWalkthroughApp::new(&Vec::new(), "/bin/zsh", "/home/me", None)
}

#[test]
fn keys_are_registered_once() {
    for i in 0..REGISTRY_LEN {
        let key = registry_key(i);
        let found = find_registry_key(key.key).unwrap();
        assert_eq!(found, key);
        assert!(!key.description.is_empty());
    }
    assert!(find_registry_key("no_such_key").is_none());
    assert_eq!(ConfigGroup::all().len(), 5);
    assert_eq!(type_label(&ConfigType::Bool), "bool");
    assert_eq!(type_label(&ConfigType::Mapping), "map");
}

#[test]
fn configured_values_come_back() {
    let config = vec![
        ("tracking_mode".to_string(), ConfigValue::Text("relaxed".to_string())),
        ("intervention_tracking".to_string(), ConfigValue::Bool(true)),
        ("cpitd_auto_install".to_string(), ConfigValue::Bool(false)),
        ("blocked_git_commands".to_string(), ConfigValue::Other),
    ];
    let core = WalkthroughCore::new(&config, 1);
    assert_eq!(core.group_cursor, 0);
    assert_eq!(core.group_names.len(), core.group_keys.len());
    let built = core.build_config();
    for (key, value) in &config[..3] {
        let found: Vec<&ConfigValue> =
            built.iter().filter(|choice| choice.0 == *key).map(|choice| &choice.1).collect();
        assert_eq!(found, vec![value]);
    }
    for (key, _) in &built {
        let entry = find_registry_key(key).unwrap();
        assert!(matches!(
            entry.config_type,
            ConfigType::Bool | ConfigType::Enum(_) | ConfigType::String
        ));
    }
    let started = InitWalkthroughApp::new(&config, "/bin/zsh", "/home/me", None);
    assert_eq!(started.core.group_names, core.group_names);
    assert_eq!(started.core.group_keys, core.group_keys);
    assert_eq!(started.core.group_selections, core.group_selections);
}

#[test]
fn going_back_undoes_confirming() {
    let mut core = WalkthroughCore::new(&Vec::new(), 1);
    assert!(core.is_preset_screen());
    core.preset_selected = 2;
    core.confirm();
    assert!(!core.is_preset_screen());
    core.go_back();
    assert!(core.is_preset_screen());
}

#[test]
fn cycling_back_undoes_cycling() {
    let mut core = WalkthroughCore::new(&Vec::new(), 1);
    core.next_screen();
    assert_eq!(core.current_group_idx(), Some(0));
    let before = core.group_selections.clone();
    core.cycle_value();
    assert_ne!(core.group_selections, before);
    core.cycle_value_back();
    assert_eq!(core.group_selections, before);
}

#[test]
fn applying_a_preset_twice_changes_nothing() {
    let mut core = WalkthroughCore::new(&Vec::new(), 1);
    core.preset_selected = 1;
    core.apply_preset_selections();
    let once = core.group_selections.clone();
    core.apply_preset_selections();
    assert_eq!(core.group_selections, once);
    assert!(preset_value(0, "tracking_mode").is_some());
    assert!(preset_value(0, "no_such_key").is_none());
}

#[test]
fn confirming_reaches_the_end() {
    let mut a = app();
    let mut presses = 0;
    while !a.handle_key(Key::Tab) && !a.core.is_confirm_screen() {
        presses += 1;
        assert!(presses < 50);
    }
    assert_eq!(a.current_screen(), Screen::Confirm);
    assert!(a.handle_key(Key::Enter));
    let choices = a.outcome().unwrap();
    assert!(choices.values.iter().any(|(key, _)| key == "tracking_mode"));
}

#[test]
fn escaping_cancels() {
    let mut a = app();
    let before = a.core.group_selections.clone();
    assert!(a.handle_key(Key::Esc));
    assert_eq!(a.core.group_selections, before);
    assert_eq!(a.outcome().unwrap_err(), "Setup cancelled");
}

#[test]
fn screens_show_how_far_the_walkthrough_is() {
    let a = app();
    assert_eq!(a.current_screen(), Screen::Preset);
    let progress = a.progress();
    assert_eq!(progress[0], Progress::Current);
    assert!(progress[1..].iter().all(|p| *p == Progress::Ahead));
    assert!(a.preset_rows().iter().any(|row| row.selected));
    assert!(!a.confirm_lines().is_empty());
}

#[test]
fn the_alias_is_added_once() {
    let (file, line) = detect_shell("/bin/zsh", "/home/me").unwrap();
    assert_eq!(file, "/home/me/.zshrc");
    assert_eq!(line, "alias xl='crosslink'");
    assert_eq!(detect_shell("/usr/bin/fish", "/h").unwrap().1, "abbr -a xl crosslink");
    assert!(detect_shell("/bin/tcsh", "/h").is_none());

    assert_eq!(plan_shell_alias(false, "/bin/zsh", "/home/me", None), AliasStep::Skip);
    assert_eq!(plan_shell_alias(true, "/bin/tcsh", "/home/me", None), AliasStep::UnknownShell);
    match plan_shell_alias(true, "/bin/zsh", "/home/me", Some("ls\n")) {
        AliasStep::Append { file, text } => {
            assert_eq!(file, "/home/me/.zshrc");
            assert_eq!(text, "\n# crosslink shortcut\nalias xl='crosslink'\n");
            let after = format!("ls\n{text}");
            assert!(alias_installed(&after, line));
            assert_eq!(
                plan_shell_alias(true, "/bin/zsh", "/home/me", Some(&after)),
                AliasStep::AlreadyInstalled
            );
        }
        _ => panic!("expected the alias"),
    }
}

#[test]
fn choices_are_put_into_the_configuration() {
    let choices = TuiChoices {
        values: vec![
            ("tracking_mode".to_string(), ConfigValue::Text("relaxed".to_string())),
            ("intervention_tracking".to_string(), ConfigValue::Bool(false)),
        ],
        install_alias: false,
    };
    let before = Config {
        entries: vec![
            Entry { key: "tracking_mode".to_string(), value: SettingValue::Text("strict".to_string()) },
            Entry { key: "other".to_string(), value: SettingValue::Flag(true) },
        ],
    };
    let after = apply_tui_choices(Some(before), &choices).unwrap();
    assert_eq!(after.get("tracking_mode"), Some(&SettingValue::Text("relaxed".to_string())));
    assert_eq!(after.get("intervention_tracking"), Some(&SettingValue::Flag(false)));
    assert_eq!(after.get("other"), Some(&SettingValue::Flag(true)));
    assert_eq!(
        apply_tui_choices(None, &choices).unwrap_err(),
        "hook-config.json is not a JSON object"
    );
}
