//! Requests to agents and their answers.

use crosslink::agent_requests::{
    ack_file_name, is_request_file, new_request_id, request_path, requests_dir, scan, AgentRequest,
    AgentRequestAck, RequestKind, RequestSubject,
};

#[test]
fn test_requestkind_roundtrip() {
    for (s, k) in [
        ("kill", RequestKind::Kill),
        ("pause", RequestKind::Pause),
        ("resume", RequestKind::Resume),
        ("reprioritise", RequestKind::Reprioritise),
        ("reprioritize", RequestKind::Reprioritise),
    ] {
        assert_eq!(RequestKind::parse(s).unwrap(), k);
    }
    assert!(RequestKind::parse("bogus").is_err());
}

#[test]
fn test_scan_missing_dir_returns_empty() {
    let out = scan(&Vec::new(), &Vec::new());
    assert!(out.is_empty());
}

#[test]
fn test_scan_pairs_requests_with_acks() {
    // Pending request (no ack).
    let r1 = AgentRequest {
        request_id: "01HXY000000000000000000001".into(),
        kind: RequestKind::Pause,
        subject: RequestSubject { issue_id: Some(42) },
        requested_by: "SHA256:driver".into(),
        requested_at: "2026-04-20T18:30:00Z".into(),
        reason: Some("stuck".into()),
    };
    // Acked request.
    let r2 = AgentRequest {
        request_id: "01HXY000000000000000000000".into(),
        kind: RequestKind::Kill,
        subject: RequestSubject::default(),
        requested_by: "SHA256:driver".into(),
        requested_at: "2026-04-20T18:20:00Z".into(),
        reason: None,
    };
    let ack = AgentRequestAck {
        request_id: r2.request_id.clone(),
        ack_at: "2026-04-20T18:20:05Z".into(),
        acted: true,
        result: "killed".into(),
        notes: None,
    };
    let files = vec![
        (format!("{}.json", r1.request_id), r1.clone()),
        (format!("{}.json", r2.request_id), r2.clone()),
    ];
    let acks = vec![(format!("{}.ack.json", r2.request_id), ack)];

    let out = scan(&files, &acks);
    assert_eq!(out.len(), 2);
    // Sorted lex; r2's id is lower so it comes first.
    assert_eq!(out[0].request.request_id, r2.request_id);
    assert!(out[0].ack.as_ref().unwrap().acted);
    assert_eq!(out[1].request.request_id, r1.request_id);
    assert!(out[1].ack.is_none());
}

#[test]
fn test_new_request_id_is_unique_and_sortable() {
    let a = new_request_id();
    let b = new_request_id();
    assert_ne!(a, b);
    // Ulids are 26 chars uppercase.
    assert_eq!(a.len(), 26);
    assert_eq!(b.len(), 26);
}

#[test]
fn requests_live_below_their_agent() {
    assert_eq!(requests_dir("agent-x"), "agents/agent-x/requests");
    assert_eq!(request_path("agent-x", "01A"), "agents/agent-x/requests/01A.json");
    assert_eq!(ack_file_name("01A"), "01A.ack.json");
}

#[test]
fn answers_and_other_files_are_no_requests() {
    assert!(is_request_file("01A.json"));
    assert!(!is_request_file("01A.ack.json"));
    assert!(!is_request_file("01A.txt"));
}

#[test]
fn unknown_request_kinds_are_named() {
    let message = RequestKind::parse("bogus").unwrap_err();
    assert!(message.contains("bogus"));
}

#[test]
fn only_a_subject_without_an_issue_is_empty() {
    assert!(RequestSubject::default().is_empty());
    assert!(!RequestSubject { issue_id: Some(1) }.is_empty());
}
