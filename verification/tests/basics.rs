//! Moments, lists in order, and JSON.

use crosslink::json::{
    flag_at, inner_flag_at, inner_number_at, inner_text_at, parse_error, print, text_at, write_list,
    write_object, write_texts, Field,
};
use crosslink::order::order_of;
use crosslink::text::{dec_i64, lines_of, parse_u64, replace_str, to_lower, trim_str};
use crosslink::time::{Moment, FIRST_SECOND, LAST_SECOND};

#[test]
fn moments_are_written_by_the_calendar() {
    let m = Moment::new(1_770_000_000, 5).unwrap();
    assert_eq!(m.day(), "2026-02-02");
    assert_eq!(m.minute(), "2026-02-02 02:40");
    assert_eq!(m.second(), "2026-02-02 02:40:00");
    assert_eq!(m.stamp(), "2026-02-02T02:40:00Z");
    assert_eq!(m.nanoseconds(), 5);
    assert!(Moment::new(i64::MAX, 0).is_none());
    assert!(Moment::new(FIRST_SECOND, 0).is_some());
    assert!(Moment::new(FIRST_SECOND - 1, 0).is_none());
    assert!(Moment::new(LAST_SECOND, 999_999_999).is_some());
    assert!(Moment::new(LAST_SECOND + 1, 0).is_none());
    assert!(Moment::new(59, 1_999_999_999).is_some());
    assert!(Moment::new(-1, 1_000_000_000).is_some());
    assert!(Moment::new(58, 1_000_000_000).is_none());
    assert!(Moment::new(59, 2_000_000_000).is_none());
    let leap = Moment::parse("2016-12-31T23:59:60Z").unwrap();
    assert_eq!(leap.nanoseconds(), 1_000_000_000);
}

#[test]
fn moments_are_parsed_and_compared() {
    let a = Moment::parse("2026-02-02T02:40:00Z").unwrap();
    let b = Moment::parse("2026-02-02T04:40:30+02:00").unwrap();
    assert_eq!(b.seconds_since(&a), 30);
    assert_eq!(a.seconds_since(&b), -30);
    assert!(Moment::parse("yesterday").is_none());
    let half = Moment::new(a.seconds() + 1, 500_000_000).unwrap();
    assert_eq!(half.seconds_since(&a), 1);
    assert_eq!(a.seconds_since(&half), -1);
}

#[test]
fn leap_seconds_count_within_a_day() {
    let leap = Moment::new(59, 1_500_000_000).unwrap();
    let next = Moment::new(60, 0).unwrap();
    let later = Moment::new(61, 0).unwrap();
    let morning = Moment::new(86_400, 0).unwrap();
    assert_eq!(next.seconds_since(&leap), 0);
    assert_eq!(later.seconds_since(&leap), 1);
    assert_eq!(leap.seconds_since(&later), -1);
    assert_eq!(morning.seconds_since(&leap), 86_339);
    assert!(later.is_farther_than(&leap, 1));
    assert!(!later.is_farther_than(&leap, 2));
    assert!(leap.is_farther_than(&later, 1));
}

#[test]
fn values_are_read_from_json() {
    let document = r#"{"on": true, "name": "x", "in": {"off": false, "n": 7, "s": "y", "minus": -1, "half": 0.5}}"#;
    assert_eq!(flag_at(document, "on"), Some(true));
    assert_eq!(flag_at(document, "name"), None);
    assert_eq!(flag_at(document, "absent"), None);
    assert_eq!(text_at(document, "name"), Some("x".to_string()));
    assert_eq!(text_at(document, "on"), None);
    assert_eq!(inner_flag_at(document, "in", "off"), Some(false));
    assert_eq!(inner_flag_at(document, "on", "off"), None);
    assert_eq!(inner_number_at(document, "in", "n"), Some(7));
    assert_eq!(inner_number_at(document, "in", "minus"), None);
    assert_eq!(inner_number_at(document, "in", "half"), None);
    assert_eq!(inner_text_at(document, "in", "s"), Some("y".to_string()));
    assert_eq!(flag_at("[true]", "on"), None);
    assert_eq!(flag_at("{", "on"), None);
    assert_eq!(parse_error(document), None);
    assert!(parse_error("{").unwrap().contains("EOF"));
    let largest = r#"{"in": {"n": 18446744073709551615, "more": 18446744073709551616}}"#;
    assert_eq!(inner_number_at(largest, "in", "n"), Some(u64::MAX));
    assert_eq!(inner_number_at(largest, "in", "more"), None);
}

#[test]
fn names_are_sorted_and_equal_ones_keep_their_order() {
    let names = vec!["b".to_string(), "a".to_string(), "b".to_string(), "Z".to_string()];
    assert_eq!(order_of(&names), vec![3, 1, 0, 2]);
}

#[test]
fn json_is_written_and_laid_out() {
    let list = write_texts(&vec!["a\"b".to_string(), "c".to_string()]);
    let parsed: serde_json::Value = serde_json::from_str(&list).unwrap();
    assert_eq!(parsed[0], "a\"b");
    let object = write_object(&vec![
        Field { key: "items", value: list },
        Field { key: "none", value: write_list(&Vec::new()) },
    ]);
    let shown = print(&object);
    assert!(shown.contains("\n  \"items\": [\n"));
    let parsed: serde_json::Value = serde_json::from_str(&shown).unwrap();
    assert_eq!(parsed["items"][1], "c");
}

#[test]
fn texts_are_taken_apart() {
    assert_eq!(lines_of("a\r\nb\n\nc"), vec!["a", "b", "", "c"]);
    assert_eq!(trim_str("\u{2003} x \t\n"), "x");
    assert_eq!(replace_str("aXbX", "X", "--"), "a--b--");
    assert_eq!(dec_i64(i64::MIN), "-9223372036854775808");
    assert_eq!(parse_u64("+17"), Some(17));
    assert_eq!(parse_u64("18446744073709551616"), None);
    assert_eq!(to_lower("ÉCOLE"), "école");
}

#[test]
fn texts_are_quoted_as_json() {
    let items = vec!["a\"b\\c".to_string(), "\u{8}\t\n\u{c}\r".to_string(), "\u{1f}\u{7f}é\u{0}".to_string()];
    let expected = "[\"a\\\"b\\\\c\",\"\\b\\t\\n\\f\\r\",\"\\u001f\u{7f}é\\u0000\"]";
    assert_eq!(write_texts(&items), expected);
}
