//! The file that holds the settings.

use crosslink::commands::config;
use crosslink::commands::config::{Item, SettingValue};
use crosslink::commands::config_file::{holds_object, parse_config, takes_settings, write_config};
use crosslink::commands::config_registry::ConfigValue;
use crosslink::commands::init::walkthrough::walkthrough_values;

const FILE: &str = "{\n  \"blocked\": [\n    \"git push\",\n    3\n  ],\n  \"flag\": true,\n  \"nested\": {\n    \"a\": null,\n    \"b\": 1.5\n  },\n  \"tracking_mode\": \"strict\"\n}\n";

#[test]
fn settings_are_read_from_their_file() {
    let config = parse_config(FILE).unwrap();
    assert_eq!(config.entries.len(), 4);
    assert_eq!(config.get("flag"), Some(&SettingValue::Flag(true)));
    assert_eq!(
        config.get("tracking_mode"),
        Some(&SettingValue::Text("strict".to_string()))
    );
    assert_eq!(
        config.get("blocked"),
        Some(&SettingValue::List(vec![
            Item::Text("git push".to_string()),
            Item::Other("3".to_string()),
        ]))
    );
    match config.get("nested") {
        Some(SettingValue::Other(compact)) => assert_eq!(compact, "{\"a\":null,\"b\":1.5}"),
        other => panic!("unexpected {other:?}"),
    }
}

#[test]
fn a_file_that_is_no_json_is_refused() {
    assert!(parse_config("{\"flag\": ").unwrap_err().contains("EOF"));
    assert!(!holds_object("{\"flag\": "));
    assert!(!takes_settings("{\"flag\": "));
}

#[test]
fn a_file_without_an_object_holds_no_settings() {
    assert!(parse_config("[1, 2]").unwrap().entries.is_empty());
    assert!(!holds_object("[1, 2]"));
    assert!(!takes_settings("[1, 2]"));
    assert!(!holds_object("null"));
    assert!(takes_settings("null"));
    assert!(holds_object("{}"));
    assert!(takes_settings("{}"));
}

#[test]
fn an_unchanged_file_is_written_as_it_was() {
    let config = parse_config(FILE).unwrap();
    assert_eq!(write_config(FILE, &config), FILE);
}

#[test]
fn one_setting_changes_alone() {
    let config = parse_config(FILE).unwrap();
    let change = config::set(&config, "tracking_mode", Some("relaxed"), None, None).ok().unwrap();
    let text = write_config(FILE, &change.config.unwrap());
    let before: serde_json::Value = serde_json::from_str(FILE).unwrap();
    let after: serde_json::Value = serde_json::from_str(&text).unwrap();
    assert_eq!(after["tracking_mode"], "relaxed");
    for key in ["blocked", "flag", "nested"] {
        assert_eq!(after[key], before[key]);
    }
    assert_eq!(after.as_object().unwrap().len(), 4);
}

#[test]
fn settings_without_a_file_are_written_from_scratch() {
    let config = parse_config("{\"flag\":false,\"list\":[\"a\",{\"k\":2}]}").unwrap();
    assert_eq!(
        write_config("", &config),
        "{\n  \"flag\": false,\n  \"list\": [\n    \"a\",\n    {\n      \"k\": 2\n    }\n  ]\n}\n"
    );
}

#[test]
fn the_walkthrough_takes_flags_and_texts() {
    let config = parse_config("{\"a\":true,\"b\":\"x\",\"c\":[\"y\"],\"d\":7}").unwrap();
    assert_eq!(
        walkthrough_values(&config),
        vec![
            ("a".to_string(), ConfigValue::Bool(true)),
            ("b".to_string(), ConfigValue::Text("x".to_string())),
            ("c".to_string(), ConfigValue::Other),
            ("d".to_string(), ConfigValue::Other),
        ]
    );
}
