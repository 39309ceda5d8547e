use codex_workflow::errors::WorkflowError;
use codex_workflow::layout::WorkflowLayout;
use codex_workflow::manifest::TicketSpec;
use codex_workflow::manifest::WorkflowManifest;
use codex_workflow::orchestrator::TicketPlan;
use codex_workflow::orchestrator::WorkflowStatusReport;
use codex_workflow::orchestrator::load_status;
use codex_workflow::orchestrator::plan_for_status;
use codex_workflow::orchestrator::preflight_working_dir;
use codex_workflow::orchestrator::resolve_artifacts_dir;
use codex_workflow::state::TicketStatus;
use codex_workflow::state::WorkflowState;

fn ticket(id: &str) -> TicketSpec {
    TicketSpec {
        id: id.to_string(),
        summary: format!("Ticket {id}"),
        requirements: Vec::new(),
        working_dir: None,
        prompt: None,
        review_prompt: None,
    }
}

fn manifest(tickets: Vec<TicketSpec>) -> WorkflowManifest {
    WorkflowManifest {
        source_path: "/w/flow.yaml".to_string(),
        name: Some("flow".to_string()),
        overview: None,
        tickets,
    }
}

#[test]
fn plan_follows_the_transition_table() {
    assert_eq!(plan_for_status(TicketStatus::Pending), TicketPlan::WorkerThenReview);
    assert_eq!(plan_for_status(TicketStatus::RunningWorker), TicketPlan::WorkerThenReview);
    assert_eq!(plan_for_status(TicketStatus::NeedsReview), TicketPlan::ReviewOnly);
    assert_eq!(plan_for_status(TicketStatus::RunningReview), TicketPlan::ReviewOnly);
    assert_eq!(plan_for_status(TicketStatus::Complete), TicketPlan::Skip);
    assert_eq!(plan_for_status(TicketStatus::Failed), TicketPlan::Skip);
    assert_eq!(plan_for_status(TicketStatus::Blocked), TicketPlan::Skip);
}

#[test]
fn resume_from_needs_review_runs_only_the_review() {
    let m = manifest(vec![ticket("A")]);
    let mut state = WorkflowState::initialize(&m);
    state.begin_worker("A", "/art/ticket-A/worker.log".to_string(), 1);
    state.finish_worker("A", true, Some(0), 2);
    let entry = state.ticket("A").unwrap();
    assert_eq!(entry.status, TicketStatus::NeedsReview);
    assert_eq!(entry.note, Some("Worker completed successfully".to_string()));
    assert!(entry.finished_at.is_none());

    // A resumed run sees NeedsReview: the worker step is never replanned.
    assert_eq!(plan_for_status(entry.status), TicketPlan::ReviewOnly);
    let worker_log_before = entry.worker_log.clone();
    state.begin_review("A", "/art/ticket-A/review.log".to_string(), 3);
    state.finish_review("A", true, Some(0), 4);
    let done = state.ticket("A").unwrap();
    assert_eq!(done.worker_log, worker_log_before);
    assert_eq!(done.status, TicketStatus::Complete);
    assert_eq!(done.note, Some("Review passed".to_string()));
    assert_eq!(done.finished_at, Some(4));
}

#[test]
fn failed_worker_is_recorded_and_skipped_afterwards() {
    let m = manifest(vec![ticket("A")]);
    let mut state = WorkflowState::initialize(&m);
    state.begin_worker("A", "/art/ticket-A/worker.log".to_string(), 1);
    state.finish_worker("A", false, Some(3), 2);
    let entry = state.ticket("A").unwrap();
    assert_eq!(entry.status, TicketStatus::Failed);
    assert_eq!(entry.note, Some("Worker failed with status Some(3)".to_string()));
    assert_eq!(entry.finished_at, Some(2));
    assert_eq!(plan_for_status(entry.status), TicketPlan::Skip);
}

#[test]
fn missing_working_dir_aborts_before_any_session() {
    assert!(preflight_working_dir(true, "/repo", "A").is_ok());
    let err = preflight_working_dir(false, "/repo", "A").unwrap_err();
    match &err {
        WorkflowError::MissingWorkingDir { working_dir, ticket_id } => {
            assert_eq!(working_dir, "/repo");
            assert_eq!(ticket_id, "A");
        },
        _ => panic!("wrong error variant"),
    }
    assert_eq!(
        err.message(),
        "working directory /repo does not exist for ticket A".to_string()
    );
}

#[test]
fn two_ticket_run_end_to_end() {
    let m = manifest(vec![ticket("T1"), ticket("T2")]);
    let layout = WorkflowLayout::new(resolve_artifacts_dir(&m, &None));
    let mut state = WorkflowState::initialize(&m);

    // First ticket: worker and review both exit 0.
    assert_eq!(plan_for_status(state.ticket("T1").unwrap().status), TicketPlan::WorkerThenReview);
    state.begin_worker("T1", layout.worker_log_path("T1"), 10);
    state.finish_worker("T1", true, Some(0), 11);
    state.begin_review("T1", layout.review_log_path("T1"), 12);
    state.finish_review("T1", true, Some(0), 13);

    // Second ticket: worker exits 1.
    state.begin_worker("T2", layout.worker_log_path("T2"), 14);
    state.finish_worker("T2", false, Some(1), 15);

    let text = state.save();
    let report = load_status(text.as_str(), layout.state_file()).unwrap();
    assert_eq!(report.workflow_name, "flow".to_string());
    assert_eq!(report.state_path, "/w/.codex/workflows/flow/state.json".to_string());
    assert_eq!(report.tickets.len(), 2);
    let t1 = &report.tickets[0];
    assert_eq!(t1.ticket_id, "T1".to_string());
    assert_eq!(t1.status, TicketStatus::Complete);
    assert_eq!(t1.worker_log, Some("/w/.codex/workflows/flow/ticket-T1/worker.log".to_string()));
    assert_eq!(t1.review_log, Some("/w/.codex/workflows/flow/ticket-T1/review.log".to_string()));
    let t2 = &report.tickets[1];
    assert_eq!(t2.ticket_id, "T2".to_string());
    assert_eq!(t2.status, TicketStatus::Failed);
    assert!(t2.note.as_ref().unwrap().contains("1"));
    assert_eq!(t2.worker_log, Some("/w/.codex/workflows/flow/ticket-T2/worker.log".to_string()));
}

#[test]
fn artifacts_dir_defaults_next_to_the_manifest() {
    let m = manifest(vec![ticket("A")]);
    assert_eq!(resolve_artifacts_dir(&m, &None), "/w/.codex/workflows/flow".to_string());
    assert_eq!(
        resolve_artifacts_dir(&m, &Some("/elsewhere".to_string())),
        "/elsewhere".to_string()
    );
}

#[test]
fn report_carries_the_state_over() {
    let m = manifest(vec![ticket("A")]);
    let state = WorkflowState::initialize(&m);
    let report = WorkflowStatusReport::from_state(state, "/sp/state.json".to_string());
    assert_eq!(report.workflow_name, "flow".to_string());
    assert_eq!(report.state_path, "/sp/state.json".to_string());
    assert_eq!(report.tickets.len(), 1);
    assert_eq!(report.tickets[0].ticket_id, "A".to_string());
}

#[test]
fn unknown_tickets_are_ignored_by_the_transitions() {
    let m = manifest(vec![ticket("A")]);
    let mut state = WorkflowState::initialize(&m);
    assert!(!state.begin_worker("missing", "/x.log".to_string(), 1));
    assert!(!state.finish_worker("missing", true, Some(0), 2));
    assert!(state.ticket("missing").is_none());
    assert_eq!(state.ticket("A").unwrap().status, TicketStatus::Pending);
}
