//! The checkpoint of the hub, and the watermark in it.

use crosslink::checkpoint::{
    checkpoint_path, read_checkpoint, read_watermark, watermark_path, write_watermark,
    CheckpointState, CompactIssue, LockEntry, OrderingKey,
};
use crosslink::time::Moment;

fn key(agent_id: &str, agent_seq: u64) -> OrderingKey {
    OrderingKey {
        timestamp: Moment::new(1_770_000_000, 0).unwrap(),
        agent_id: agent_id.to_string(),
        agent_seq,
    }
}

#[test]
fn test_default_checkpoint_state() {
    let state = CheckpointState::default();
    assert_eq!(state.next_display_id, 1);
    assert_eq!(state.next_comment_id, 1);
    assert!(state.display_id_map.is_empty());
    assert!(state.locks.is_empty());
    assert!(state.issues.is_empty());
    assert!(state.skew_warnings.is_empty());
    assert!(state.compaction_lease.is_none());
    assert!(state.unsigned_event_warnings.is_empty());
}

#[test]
fn test_read_checkpoint_missing() {
    let state = read_checkpoint(None);
    assert_eq!(state.next_display_id, 1);
}

#[test]
fn test_watermark_roundtrip() {
    let mut state = CheckpointState::default();
    write_watermark(&mut state, &key("agent-1", 5));
    let loaded = read_watermark(&state, None).unwrap();

    assert_eq!(loaded.agent_id, "agent-1");
    assert_eq!(loaded.agent_seq, 5);
}

#[test]
fn test_read_watermark_missing() {
    assert!(read_watermark(&read_checkpoint(None), None).is_none());
}

#[test]
fn test_read_watermark_legacy_fallback() {
    let state = CheckpointState::default();
    assert!(state.watermark.is_none());
    let legacy_key = key("legacy-agent", 99);

    let loaded = read_watermark(&state, Some(&legacy_key)).unwrap();
    assert_eq!(loaded.agent_id, "legacy-agent");
    assert_eq!(loaded.agent_seq, 99);
}

#[test]
fn test_read_watermark_embedded_takes_precedence_over_legacy() {
    let mut state = CheckpointState::default();
    write_watermark(&mut state, &key("embedded-agent", 50));
    let legacy_key = key("legacy-agent", 99);

    let loaded = read_watermark(&state, Some(&legacy_key)).unwrap();
    assert_eq!(loaded.agent_id, "embedded-agent");
    assert_eq!(loaded.agent_seq, 50);
}

#[test]
fn a_stored_checkpoint_is_kept_and_a_watermark_changes_nothing_else() {
    let mut stored = CheckpointState::default();
    stored.next_display_id = 42;
    stored.next_comment_id = 10;
    stored.locks.insert(
        1,
        LockEntry {
            agent_id: "agent-1".to_string(),
            branch: Some("feature/x".to_string()),
            claimed_at: Moment::new(0, 0).unwrap(),
        },
    );
    let mut loaded = read_checkpoint(Some(stored));
    write_watermark(&mut loaded, &key("agent-1", 1));
    assert_eq!(loaded.next_display_id, 42);
    assert_eq!(loaded.next_comment_id, 10);
    assert_eq!(loaded.locks[&1].agent_id, "agent-1");
}

#[test]
fn an_issue_holds_each_label_and_each_other_issue_once() {
    let time = Moment::new(0, 0).unwrap();
    let issue = CompactIssue {
        uuid: 7,
        display_id: Some(1),
        title: "Test".to_string(),
        description: None,
        status: "open".to_string(),
        priority: "medium".to_string(),
        parent_uuid: None,
        created_by: "agent-1".to_string(),
        created_at: time,
        updated_at: time,
        closed_at: None,
        labels: ["b", "a", "b"].iter().map(|label| label.to_string()).collect(),
        blockers: [9, 8, 9].into_iter().collect(),
        related: [3, 3].into_iter().collect(),
        milestone_uuid: None,
    };
    let mut stored = CheckpointState::default();
    stored.issues.insert(issue.uuid, issue);
    let loaded = read_checkpoint(Some(stored));
    let labels: Vec<&str> = loaded.issues[&7].labels.iter().map(|label| label.as_str()).collect();
    assert_eq!(labels, vec!["a", "b"]);
    let blockers: Vec<u128> = loaded.issues[&7].blockers.iter().copied().collect();
    assert_eq!(blockers, vec![8, 9]);
    assert_eq!(loaded.issues[&7].related.len(), 1);
}

#[test]
fn the_files_lie_in_one_directory() {
    assert_eq!(checkpoint_path("cache"), "cache/checkpoint/state.json");
    assert_eq!(watermark_path("cache"), "cache/checkpoint/watermark.json");
}
