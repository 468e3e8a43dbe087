//! Exporting issues.

use std::collections::HashMap;

use crosslink::commands::export::{
    build_issue_file, build_uuid_map, build_uuid_map_from, report_exported, resolve_uuid,
    resolve_uuid_from, run_markdown, CommentRow, Issue, IssueRecord, MarkdownComment,
    MarkdownIssue, Reference,
};
use crosslink::time::Moment;

const STORED: &str = "6f0a1b2c-0000-4000-8000-000000000001";
const STORED_VALUE: u128 = 0x6f0a1b2c_0000_4000_8000_000000000001;

fn moment() -> Moment {
    Moment::new(1_770_000_000, 0).unwrap()
}

fn record(id: i64, title: &str) -> IssueRecord {
    IssueRecord {
        issue: Issue {
            id,
            title: title.to_string(),
            description: None,
            status: "open".to_string(),
            priority: "medium".to_string(),
            created_at: moment(),
            updated_at: moment(),
            closed_at: None,
        },
        created_by: None,
        parent: None,
        labels: vec![],
        comments: vec![],
        blockers: vec![],
        related: vec![],
        milestone: None,
        time_entries: vec![],
    }
}

fn comment(id: i64, content: &str) -> CommentRow {
    CommentRow {
        id,
        author: None,
        content: content.to_string(),
        created_at: moment(),
        kind: "note".to_string(),
        trigger_type: None,
        intervention_context: None,
    }
}

fn map_of(ids: &[i64]) -> HashMap<i64, u128> {
    build_uuid_map(&ids.iter().map(|i| (*i, None)).collect())
}

#[test]
fn test_export_issue_basic() {
    let file = build_issue_file(&record(1, "Test issue"), &map_of(&[1])).unwrap();
    assert_eq!(file.title, "Test issue");
    assert_eq!(file.priority, "medium");
    assert_eq!(file.status, "open");
    assert_eq!(file.display_id, Some(1));
}

#[test]
fn test_export_issue_with_labels() {
    let mut r = record(1, "Test issue");
    r.labels = vec!["bug".to_string(), "urgent".to_string()];
    assert_eq!(build_issue_file(&r, &map_of(&[1])).unwrap().labels.len(), 2);
}

#[test]
fn test_export_issue_with_comments() {
    let mut r = record(1, "Test issue");
    r.comments = vec![comment(1, "First comment"), comment(2, "Second comment")];
    let file = build_issue_file(&r, &map_of(&[1])).unwrap();
    assert_eq!(file.comments.len(), 2);
    assert_eq!(file.comments[0].content, "First comment");
}

#[test]
fn test_export_closed_issue() {
    let mut r = record(1, "Test issue");
    r.issue.status = "closed".to_string();
    r.issue.closed_at = Some(moment());
    let file = build_issue_file(&r, &map_of(&[1])).unwrap();
    assert_eq!(file.status, "closed");
    assert!(file.closed_at.is_some());
}

#[test]
fn test_run_markdown_to_file() {
    let content = run_markdown(&vec![markdown("Issue 1", "open")], &moment());
    assert!(content.contains("# Crosslink Issues Export"));
}

fn markdown(title: &str, status: &str) -> MarkdownIssue {
    MarkdownIssue {
        number: "#1".to_string(),
        title: title.to_string(),
        status: status.to_string(),
        priority: "medium".to_string(),
        parent: None,
        labels: vec![],
        created_at: moment(),
        description: None,
        comments: vec![],
    }
}

#[test]
fn test_markdown_groups_by_status() {
    let issues = vec![markdown("Open issue", "open"), markdown("Closed issue", "closed")];
    let content = run_markdown(&issues, &moment());
    assert!(content.contains("## Open Issues"));
    assert!(content.contains("## Closed Issues"));
}

#[test]
fn test_export_unicode_content() {
    let mut r = record(1, "Test 🐛");
    r.issue.description = Some("Description αβγ".to_string());
    r.labels = vec!["バグ".to_string()];
    let file = build_issue_file(&r, &map_of(&[1])).unwrap();
    assert_eq!(file.title, "Test 🐛");
}

#[test]
fn test_export_with_blockers() {
    let map = map_of(&[1, 2]);
    let blocker = build_issue_file(&record(1, "Blocker"), &map).unwrap();
    let mut r = record(2, "Blocked");
    r.blockers = vec![Reference { id: 1, stored: None }];
    let blocked = build_issue_file(&r, &map).unwrap();
    assert_eq!(blocked.blockers.len(), 1);
    assert_eq!(blocked.blockers[0], blocker.uuid);
}

#[test]
fn test_export_with_parent() {
    let map = map_of(&[1, 2]);
    let parent = build_issue_file(&record(1, "Parent"), &map).unwrap();
    let mut r = record(2, "Child");
    r.parent = Some(Reference { id: 1, stored: None });
    let child = build_issue_file(&r, &map).unwrap();
    assert!(child.parent_uuid.is_some());
    assert_eq!(child.parent_uuid.unwrap(), parent.uuid);
}

#[test]
fn stored_uuids_are_kept() {
    let entries = vec![(1, Some(STORED.to_string())), (2, Some("garbage".to_string())), (3, None)];
    let map = build_uuid_map_from(&entries, &vec![10, 11, 12]);
    assert_eq!(map[&1], STORED_VALUE);
    assert_eq!(map[&2], 11);
    assert_eq!(map[&3], 12);
}

#[test]
fn fresh_uuids_are_random() {
    let map = map_of(&[1, 2]);
    assert_ne!(map[&1], map[&2]);
    for id in [1, 2] {
        assert_eq!((map[&id] >> 76) & 0xf, 4);
        assert_eq!((map[&id] >> 62) & 0x3, 2);
    }
}

#[test]
fn references_outside_the_export_keep_their_stored_uuid() {
    let map = map_of(&[1]);
    let outside = Reference { id: 9, stored: Some(STORED.to_string()) };
    assert_eq!(resolve_uuid(&map, &outside), STORED_VALUE);
    let unknown = Reference { id: 9, stored: None };
    assert_eq!(resolve_uuid_from(&map, &unknown, 77), 77);
    let inside = Reference { id: 1, stored: Some(STORED.to_string()) };
    assert_eq!(resolve_uuid_from(&map, &inside, 77), map[&1]);
}

#[test]
fn an_issue_without_a_uuid_is_an_error() {
    match build_issue_file(&record(4, "Lost"), &map_of(&[1])) {
        Err(message) => assert_eq!(message, "issue 4 missing from uuid_map"),
        Ok(_) => panic!("expected an error"),
    }
}

#[test]
fn markdown_shows_days_and_minutes() {
    let mut issue = markdown("Shown", "closed");
    issue.labels = vec!["bug".to_string(), "ui".to_string()];
    issue.parent = Some("#9".to_string());
    issue.description = Some("Words.".to_string());
    issue.comments = vec![MarkdownComment { created_at: moment(), content: "Said.".to_string() }];
    let content = run_markdown(&vec![issue], &moment());
    assert!(content.starts_with("# Crosslink Issues Export\n\nExported: 2026-02-02 02:40:00 UTC\n\n"));
    assert!(content.contains("### [x] #1: Shown\n\n- **Priority:** medium\n- **Status:** closed\n"));
    assert!(content.contains("- **Parent:** #9\n- **Labels:** bug, ui\n- **Created:** 2026-02-02\n"));
    assert!(content.contains("2026-02-02 02:40"));
    assert!(content.contains("Said."));
    assert!(report_exported(3, "out.json").contains('3'));
}
