use codex_workflow::errors::WorkflowError;
use codex_workflow::state::TicketRunState;
use codex_workflow::state::TicketStatus;
use codex_workflow::state::WorkflowState;
use codex_workflow::statefile::decode_state;
use codex_workflow::statefile::encode_state;
use codex_workflow::statefile::tmp_state_path;

fn entry(id: &str, status: TicketStatus) -> TicketRunState {
    TicketRunState {
        ticket_id: id.to_string(),
        status,
        worker_log: None,
        review_log: None,
        note: None,
        started_at: None,
        finished_at: None,
    }
}

#[test]
fn save_load_round_trips_every_status_value() {
    let statuses = [
        TicketStatus::Pending,
        TicketStatus::RunningWorker,
        TicketStatus::NeedsReview,
        TicketStatus::RunningReview,
        TicketStatus::Complete,
        TicketStatus::Failed,
        TicketStatus::Blocked,
    ];
    let mut tickets = Vec::new();
    for (i, st) in statuses.iter().enumerate() {
        let mut t = entry(&format!("t-{i}"), *st);
        if i % 2 == 0 {
            t.worker_log = Some(format!("/logs/{i}/worker.log"));
            t.review_log = Some(format!("/logs/{i}/review.log"));
            t.note = Some(format!("note \"quoted\"\nline {i}"));
            t.started_at = Some(-5);
            t.finished_at = Some(1700000000123);
        }
        tickets.push(t);
    }
    let state = WorkflowState { workflow_name: "demo \\ \"flow\"".to_string(), tickets };

    let text = state.save();
    let back = WorkflowState::load(text.as_str()).expect("round trip");
    assert_eq!(back.workflow_name, state.workflow_name);
    assert_eq!(back.tickets.len(), state.tickets.len());
    for (a, b) in state.tickets.iter().zip(back.tickets.iter()) {
        assert_eq!(a.ticket_id, b.ticket_id);
        assert_eq!(a.status, b.status);
        assert_eq!(a.worker_log, b.worker_log);
        assert_eq!(a.review_log, b.review_log);
        assert_eq!(a.note, b.note);
        assert_eq!(a.started_at, b.started_at);
        assert_eq!(a.finished_at, b.finished_at);
    }
}

#[test]
fn encoded_state_is_the_expected_document() {
    let state = WorkflowState {
        workflow_name: "w".to_string(),
        tickets: vec![entry("A", TicketStatus::Pending)],
    };
    let text = encode_state(&state);
    let expected = "{\"workflow_name\":\"w\",\"tickets\":{\"A\":{\"ticket_id\":\"A\",\"status\":\"pending\",\"worker_log\":null,\"review_log\":null,\"note\":null,\"started_at\":null,\"finished_at\":null}}}";
    assert_eq!(text, expected.to_string());
}

#[test]
fn malformed_documents_are_rejected() {
    for bad in [
        "",
        "garbage",
        "{\"workflow_name\":\"w\"}",
        "{\"workflow_name\":\"w\",\"tickets\":{}}trailing",
        "{\"workflow_name\":\"w\",\"tickets\":{\"A\":{\"ticket_id\":\"B\",\"status\":\"pending\",\"worker_log\":null,\"review_log\":null,\"note\":null,\"started_at\":null,\"finished_at\":null}}}",
    ] {
        let err = decode_state(bad).unwrap_err();
        assert!(matches!(err, WorkflowError::MalformedState));
        assert_eq!(err.message(), "parse workflow state json".to_string());
    }
}

#[test]
fn duplicate_ids_in_a_document_are_rejected() {
    let one = "\"A\":{\"ticket_id\":\"A\",\"status\":\"pending\",\"worker_log\":null,\"review_log\":null,\"note\":null,\"started_at\":null,\"finished_at\":null}";
    let doc = format!("{{\"workflow_name\":\"w\",\"tickets\":{{{one},{one}}}}}");
    assert!(decode_state(doc.as_str()).is_err());
}

#[test]
fn timestamps_round_trip_through_decimal() {
    let mut t = entry("A", TicketStatus::Complete);
    t.started_at = Some(i64::MIN);
    t.finished_at = Some(i64::MAX);
    let state = WorkflowState { workflow_name: "w".to_string(), tickets: vec![t] };
    let back = decode_state(encode_state(&state).as_str()).unwrap();
    assert_eq!(back.tickets[0].started_at, Some(i64::MIN));
    assert_eq!(back.tickets[0].finished_at, Some(i64::MAX));
}

#[test]
fn tmp_path_appends_the_suffix() {
    assert_eq!(tmp_state_path("/a/state.json"), "/a/state.json.tmp".to_string());
}
