use codex_workflow::manifest::TicketSpec;
use codex_workflow::manifest::WorkflowManifest;
use codex_workflow::state::TicketStatus;
use codex_workflow::state::WorkflowState;

fn ticket(id: &str, summary: &str) -> TicketSpec {
    TicketSpec {
        id: id.to_string(),
        summary: summary.to_string(),
        requirements: Vec::new(),
        working_dir: None,
        prompt: None,
        review_prompt: None,
    }
}

#[test]
fn initializes_state_with_pending_tickets() {
    let manifest = WorkflowManifest {
        source_path: "workflow.yaml".to_string(),
        name: Some("demo".into()),
        overview: None,
        tickets: vec![ticket("A", "Ticket A"), ticket("B", "Ticket B")],
    };

    let state = WorkflowState::initialize(&manifest);
    assert_eq!(state.tickets.len(), 2);
    assert!(state.tickets.iter().all(|t| t.status == TicketStatus::Pending));
}

#[test]
fn initialize_gives_fresh_entries_and_the_workflow_name() {
    let manifest = WorkflowManifest {
        source_path: "flows/demo.yaml".to_string(),
        name: None,
        overview: None,
        tickets: vec![ticket("T1", "One")],
    };
    let state = WorkflowState::initialize(&manifest);
    assert_eq!(state.workflow_name, "demo".to_string());
    let t = &state.tickets[0];
    assert_eq!(t.ticket_id, "T1".to_string());
    assert_eq!(t.status, TicketStatus::Pending);
    assert!(t.worker_log.is_none());
    assert!(t.review_log.is_none());
    assert!(t.note.is_none());
    assert!(t.started_at.is_none());
    assert!(t.finished_at.is_none());
}

#[test]
fn sync_inserts_only_missing_entries() {
    let first = WorkflowManifest {
        source_path: "w.yaml".to_string(),
        name: Some("w".into()),
        overview: None,
        tickets: vec![ticket("A", "a")],
    };
    let mut state = WorkflowState::initialize(&first);
    state.begin_worker("A", "/logs/a.log".to_string(), 7);

    let grown = WorkflowManifest {
        source_path: "w.yaml".to_string(),
        name: Some("w".into()),
        overview: None,
        tickets: vec![ticket("A", "a"), ticket("B", "b")],
    };
    state.sync_with_manifest(&grown);
    assert_eq!(state.tickets.len(), 2);
    let a = state.ticket("A").unwrap();
    assert_eq!(a.status, TicketStatus::RunningWorker);
    assert_eq!(a.worker_log, Some("/logs/a.log".to_string()));
    assert_eq!(a.started_at, Some(7));
    let b = state.ticket("B").unwrap();
    assert_eq!(b.status, TicketStatus::Pending);
    assert!(b.worker_log.is_none() && b.started_at.is_none());

    state.sync_with_manifest(&grown);
    assert_eq!(state.tickets.len(), 2);
}

#[test]
fn mark_running_keeps_the_first_start_time() {
    let manifest = WorkflowManifest {
        source_path: "w.yaml".to_string(),
        name: Some("w".into()),
        overview: None,
        tickets: vec![ticket("A", "a")],
    };
    let mut state = WorkflowState::initialize(&manifest);
    state.tickets[0].mark_running(TicketStatus::RunningWorker, 100);
    assert_eq!(state.tickets[0].started_at, Some(100));
    state.tickets[0].mark_running(TicketStatus::RunningReview, 200);
    assert_eq!(state.tickets[0].started_at, Some(100));
    assert!(state.tickets[0].note.is_none());
}

#[test]
fn status_names_round_trip() {
    let all = [
        TicketStatus::Pending,
        TicketStatus::RunningWorker,
        TicketStatus::NeedsReview,
        TicketStatus::RunningReview,
        TicketStatus::Complete,
        TicketStatus::Failed,
        TicketStatus::Blocked,
    ];
    for st in all {
        let name = st.status_name();
        assert_eq!(TicketStatus::parse_status(name.as_str()), Some(st));
    }
    assert_eq!(TicketStatus::parse_status("PENDING"), None);
    assert_eq!(TicketStatus::parse_status(""), None);
    assert_eq!(TicketStatus::Pending.status_name(), "pending".to_string());
    assert_eq!(TicketStatus::RunningWorker.status_name(), "running_worker".to_string());
}
