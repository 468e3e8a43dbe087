//! The flags that tell an agent to pause, stop or change its priorities.

use crosslink::agent_flags::{
    clear_paused, clear_reprioritise_hint, flag_path, is_paused, read_reprioritise_hint, set_kill,
    set_paused, set_reprioritise_hint, should_exit, FlagDir, ReprioritiseHint, KILL, PAUSED,
    REPRIORITISE,
};

#[test]
fn test_pause_lifecycle() {
    let mut dir = FlagDir::default();
    assert!(!is_paused(&dir));
    set_paused(&mut dir);
    assert!(is_paused(&dir));
    // Idempotent.
    set_paused(&mut dir);
    assert!(is_paused(&dir));
    clear_paused(&mut dir);
    assert!(!is_paused(&dir));
    // Clearing a missing flag is a no-op.
    clear_paused(&mut dir);
    assert!(!is_paused(&dir));
}

#[test]
fn test_kill_flag() {
    let mut dir = FlagDir::default();
    assert!(!should_exit(&dir));
    set_kill(&mut dir);
    assert!(should_exit(&dir));
}

#[test]
fn test_reprioritise_hint_roundtrip() {
    let mut dir = FlagDir::default();
    assert!(read_reprioritise_hint(&dir).is_none());

    let hint = ReprioritiseHint {
        issue_id: 42,
        from_request_id: "01HXY000000000000000000001".into(),
    };
    set_reprioritise_hint(&mut dir, &hint);
    let loaded = read_reprioritise_hint(&dir).unwrap();
    assert_eq!(loaded, hint);

    clear_reprioritise_hint(&mut dir);
    assert!(read_reprioritise_hint(&dir).is_none());
}

#[test]
fn flags_do_not_touch_one_another() {
    let mut dir = FlagDir::default();
    set_kill(&mut dir);
    assert!(!is_paused(&dir));
    set_paused(&mut dir);
    clear_paused(&mut dir);
    assert!(should_exit(&dir));
}

#[test]
fn flags_are_files_in_one_directory() {
    assert_eq!(flag_path(".crosslink", PAUSED), ".crosslink/agent-flags/paused");
    assert_eq!(flag_path(".crosslink", KILL), ".crosslink/agent-flags/kill");
    assert_eq!(
        flag_path(".crosslink", REPRIORITISE),
        ".crosslink/agent-flags/reprioritise.json"
    );
}

#[test]
fn a_request_to_exit_is_kept() {
    let mut dir = FlagDir::default();
    let hint = ReprioritiseHint { issue_id: 7, from_request_id: "01HXY".to_string() };
    let next = ReprioritiseHint { issue_id: 8, from_request_id: "01HXZ".to_string() };
    set_kill(&mut dir);
    set_paused(&mut dir);
    set_reprioritise_hint(&mut dir, &hint);
    set_reprioritise_hint(&mut dir, &next);
    assert_eq!(read_reprioritise_hint(&dir), Some(next));
    clear_paused(&mut dir);
    clear_reprioritise_hint(&mut dir);
    assert!(should_exit(&dir));
    assert!(!is_paused(&dir));
    assert!(read_reprioritise_hint(&dir).is_none());
}
