//! Events whose clocks disagree with the commits that carry them.

use crosslink::clock_skew::{
    added_lines, describe_event, detect_git_skew_violations, get_commits_for_file, AgentLog,
    CommitEvents, Event, EventEnvelope, SKEW_THRESHOLD_SECS,
};
use crosslink::time::Moment;

const COMMIT_TIME: i64 = 1_770_000_000;

fn moment(secs: i64) -> Moment {
    Moment::new(secs, 0).unwrap()
}

fn created(title: &str, secs: i64) -> EventEnvelope {
    EventEnvelope {
        timestamp: moment(secs),
        event: Event::IssueCreated {
            uuid: "6f0a1b2c-0000-4000-8000-000000000001".to_string(),
            title: title.to_string(),
        },
    }
}

fn log(agent_id: &str, events: Vec<EventEnvelope>) -> AgentLog {
    AgentLog {
        agent_id: agent_id.to_string(),
        commits: vec![CommitEvents { timestamp: moment(COMMIT_TIME), events }],
    }
}

#[test]
fn test_no_violations_within_threshold() {
    let logs = vec![log("agent-1", vec![created("Normal event", COMMIT_TIME - 10)])];
    let violations = detect_git_skew_violations(&logs);
    assert!(
        violations.is_empty(),
        "Expected no violations for events within threshold, got: {:?}",
        violations
    );
}

#[test]
fn test_violation_detected_when_skew_exceeds_threshold() {
    let logs = vec![log("agent-1", vec![created("Skewed event", COMMIT_TIME + 300)])];
    let violations = detect_git_skew_violations(&logs);
    assert_eq!(violations.len(), 1);
    assert_eq!(violations[0].agent_id, "agent-1");
    assert!(
        (violations[0].skew_seconds - 300).abs() <= 1,
        "Expected skew ~300s, got {}",
        violations[0].skew_seconds
    );
    assert_eq!(violations[0].commit_timestamp.seconds(), COMMIT_TIME);
}

#[test]
fn test_multiple_agents_independent_detection() {
    let logs = vec![
        log("agent-1", vec![created("Good event", COMMIT_TIME + 5)]),
        log("agent-2", vec![created("Bad event", COMMIT_TIME + 120)]),
    ];
    let violations = detect_git_skew_violations(&logs);
    assert_eq!(violations.len(), 1);
    assert_eq!(violations[0].agent_id, "agent-2");
}

#[test]
fn test_no_agents_dir_returns_empty() {
    assert!(detect_git_skew_violations(&Vec::new()).is_empty());
}

#[test]
fn test_describe_event_variants() {
    let uuid = "6f0a1b2c-0000-4000-8000-000000000002".to_string();
    let cases = vec![
        (
            Event::IssueCreated { uuid: uuid.clone(), title: "Test".to_string() },
            format!("IssueCreated({}, Test)", uuid),
        ),
        (Event::LockClaimed { issue_display_id: 42 }, "LockClaimed(#42)".to_string()),
        (
            Event::LabelAdded { issue_uuid: uuid.clone(), label: "bug".to_string() },
            format!("LabelAdded({}, bug)", uuid),
        ),
    ];

    for (event, expected) in cases {
        assert_eq!(describe_event(&event), expected);
    }
}

#[test]
fn test_negative_skew_detected() {
    let logs = vec![log("agent-1", vec![created("Behind event", COMMIT_TIME - 120)])];
    let violations = detect_git_skew_violations(&logs);
    assert_eq!(violations.len(), 1);
    assert!(
        (violations[0].skew_seconds - 120).abs() <= 1,
        "Expected skew ~120s, got {}",
        violations[0].skew_seconds
    );
}

#[test]
fn the_threshold_itself_is_no_violation() {
    let at = vec![log("agent-1", vec![created("At", COMMIT_TIME + SKEW_THRESHOLD_SECS)])];
    assert!(detect_git_skew_violations(&at).is_empty());
    let beyond = vec![log("agent-1", vec![created("Beyond", COMMIT_TIME + SKEW_THRESHOLD_SECS + 1)])];
    assert_eq!(detect_git_skew_violations(&beyond).len(), 1);
}

#[test]
fn a_part_of_a_second_beyond_the_threshold_is_a_violation() {
    for offset in [SKEW_THRESHOLD_SECS, -SKEW_THRESHOLD_SECS - 1] {
        let mut event = created("Half a second beyond", COMMIT_TIME);
        event.timestamp = Moment::new(COMMIT_TIME + offset, 500_000_000).unwrap();
        let violations = detect_git_skew_violations(&vec![log("agent-1", vec![event])]);
        assert_eq!(violations.len(), 1);
        assert_eq!(violations[0].skew_seconds, 60);
    }
    let mut event = created("Half a second within", COMMIT_TIME);
    event.timestamp = Moment::new(COMMIT_TIME + SKEW_THRESHOLD_SECS - 1, 500_000_000).unwrap();
    assert!(detect_git_skew_violations(&vec![log("agent-1", vec![event])]).is_empty());
}

#[test]
fn commits_are_read_from_the_log() {
    let commits = get_commits_for_file("abc 2026-02-02T02:40:00+00:00\nbroken\n\ndef 1970-01-01T00:00:10Z\n");
    assert_eq!(commits.len(), 2);
    assert_eq!(commits[0].hash, "abc");
    assert_eq!(commits[0].timestamp.seconds(), 1_770_000_000);
    assert_eq!(commits[1].hash, "def");
    assert_eq!(commits[1].timestamp.seconds(), 10);
}

#[test]
fn added_lines_leave_out_the_header() {
    let diff = "--- a/events.log\n+++ b/events.log\n@@ -0,0 +1 @@\n+{\"a\":1}\n-{\"b\":2}\n unchanged\n";
    assert_eq!(added_lines(diff), vec!["{\"a\":1}"]);
}
