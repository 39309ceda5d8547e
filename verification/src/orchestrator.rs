//! The control loop's decision core: which steps a ticket still needs,
//! the transition applied around each session, the working-directory
//! preflight, and the artifacts-root resolution.  Launching processes
//! and touching the file system stay outside; every decision is here.

use vstd::prelude::*;
use crate::errors::WorkflowError;
use crate::manifest::WorkflowManifest;
use crate::manifest::WorkflowManifestView;
use crate::manifest::opt_view;
use crate::manifest::workflow_name_spec;
use crate::num::code_debug;
use crate::num::code_debug_text;
use crate::paths::join_spec;
use crate::paths::parent_dir_spec;
use crate::paths::path_join;
use crate::state::TicketRunState;
use crate::state::TicketRunStateView;
use crate::state::TicketStatus;
use crate::state::WorkflowState;
use crate::state::has_id;
use crate::state::wf_state;
use crate::text::chars_of;
use crate::text::string_of;

verus! {

/// What the orchestrator still has to do for a ticket it reaches.
#[derive(Debug, Clone, Copy, PartialEq, Eq, Structural)]
pub enum TicketPlan {
    /// A terminal status: the ticket is skipped entirely.
    Skip,
    /// The worker already succeeded: only the review step runs.
    ReviewOnly,
    /// The worker step runs, then (unless it failed) the review step.
    WorkerThenReview,
}

pub open spec fn plan_spec(status: TicketStatus) -> TicketPlan {
    if status.is_terminal() {
        TicketPlan::Skip
    } else if status == TicketStatus::NeedsReview || status == TicketStatus::RunningReview {
        TicketPlan::ReviewOnly
    } else {
        TicketPlan::WorkerThenReview
    }
}

/// Decide which steps a ticket's current status still calls for.
pub fn plan_for_status(status: TicketStatus) -> (p: TicketPlan)
    ensures
        p == plan_spec(status),
{
    match status {
        TicketStatus::Complete | TicketStatus::Failed | TicketStatus::Blocked => TicketPlan::Skip,
        TicketStatus::NeedsReview | TicketStatus::RunningReview => TicketPlan::ReviewOnly,
        TicketStatus::Pending | TicketStatus::RunningWorker => TicketPlan::WorkerThenReview,
    }
}

/// Whether the review step may run from this status.
pub open spec fn review_applicable(status: TicketStatus) -> bool {
    status == TicketStatus::NeedsReview || status == TicketStatus::RunningReview
}

/// The entry after the worker step begins: log recorded, status
/// `RunningWorker`, first start time kept, note cleared.
pub open spec fn begun_worker(t: TicketRunStateView, log: Seq<char>, now: i64) -> TicketRunStateView {
    TicketRunStateView {
        status: TicketStatus::RunningWorker,
        worker_log: Some(log),
        note: None,
        started_at: if t.started_at is Some {
            t.started_at
        } else {
            Some(now)
        },
        ..t
    }
}

/// The entry after the worker session exits: `NeedsReview` on success,
/// `Failed` with the exit code in the note otherwise.
pub open spec fn finished_worker(
    t: TicketRunStateView,
    success: bool,
    code: Option<i32>,
    now: i64,
) -> TicketRunStateView {
    if success {
        TicketRunStateView {
            status: TicketStatus::NeedsReview,
            note: Some("Worker completed successfully"@),
            ..t
        }
    } else {
        TicketRunStateView {
            status: TicketStatus::Failed,
            note: Some("Worker failed with status "@ + code_debug(code)),
            finished_at: Some(now),
            ..t
        }
    }
}

/// The entry after the review step begins.
pub open spec fn begun_review(t: TicketRunStateView, log: Seq<char>, now: i64) -> TicketRunStateView {
    TicketRunStateView {
        status: TicketStatus::RunningReview,
        review_log: Some(log),
        note: None,
        started_at: if t.started_at is Some {
            t.started_at
        } else {
            Some(now)
        },
        ..t
    }
}

/// The entry after the review session exits: `Complete` on success,
/// `Failed` with the exit code in the note otherwise.
pub open spec fn finished_review(
    t: TicketRunStateView,
    success: bool,
    code: Option<i32>,
    now: i64,
) -> TicketRunStateView {
    if success {
        TicketRunStateView {
            status: TicketStatus::Complete,
            note: Some("Review passed"@),
            finished_at: Some(now),
            ..t
        }
    } else {
        TicketRunStateView {
            status: TicketStatus::Failed,
            note: Some("Review failed with status "@ + code_debug(code)),
            finished_at: Some(now),
            ..t
        }
    }
}

impl WorkflowState {
    /// All ticket ids are where they were; only the entry for
    /// `ticket_id` (if any) changed, to `f` of its old value.
    ///
    /// This is the shared shape of the four transition methods below.
    pub open spec fn updated_at_id(
        old_s: crate::state::WorkflowStateView,
        new_s: crate::state::WorkflowStateView,
        ticket_id: Seq<char>,
        updated: TicketRunStateView,
    ) -> bool {
        &&& new_s.workflow_name == old_s.workflow_name
        &&& new_s.tickets.len() == old_s.tickets.len()
        &&& forall|j: int|
            0 <= j < old_s.tickets.len() ==> (#[trigger] new_s.tickets[j]) == (
            if old_s.tickets[j].ticket_id == ticket_id {
                updated
            } else {
                old_s.tickets[j]
            })
    }

    /// Begin the worker step for `ticket_id`: record the worker log
    /// path and mark the entry `RunningWorker`.
    pub fn begin_worker(&mut self, ticket_id: &str, log_path: String, now: i64) -> (r: bool)
        requires
            wf_state(old(self)@),
        ensures
            r == has_id(old(self)@.tickets, ticket_id@),
            !r ==> final(self)@ == old(self)@,
            r ==> Self::updated_at_id(
                old(self)@,
                final(self)@,
                ticket_id@,
                begun_worker(entry_for(old(self)@.tickets, ticket_id@), log_path@, now),
            ),
            wf_state(final(self)@),
    {
        match self.index_of_id(ticket_id) {
            None => false,
            Some(i) => {
                proof {
                    lemma_only_index(self@.tickets, ticket_id@, i as int);
                }
                self.tickets[i].set_worker_log(log_path);
                self.tickets[i].mark_running(TicketStatus::RunningWorker, now);
                proof {
                    lemma_wf_same_ids(old(self)@, self@);
                }
                true
            },
        }
    }

    /// Record the worker session's outcome for `ticket_id`.
    pub fn finish_worker(
        &mut self,
        ticket_id: &str,
        success: bool,
        status_code: Option<i32>,
        now: i64,
    ) -> (r: bool)
        requires
            wf_state(old(self)@),
        ensures
            r == has_id(old(self)@.tickets, ticket_id@),
            !r ==> final(self)@ == old(self)@,
            r ==> Self::updated_at_id(
                old(self)@,
                final(self)@,
                ticket_id@,
                finished_worker(entry_for(old(self)@.tickets, ticket_id@), success, status_code, now),
            ),
            wf_state(final(self)@),
    {
        match self.index_of_id(ticket_id) {
            None => false,
            Some(i) => {
                proof {
                    lemma_only_index(self@.tickets, ticket_id@, i as int);
                }
                if success {
                    self.tickets[i].set_status_note(
                        TicketStatus::NeedsReview,
                        "Worker completed successfully".to_owned(),
                    );
                } else {
                    let mut v = chars_of("Worker failed with status ");
                    let mut c = chars_of(code_debug_text(status_code).as_str());
                    v.append(&mut c);
                    let note = string_of(&v);
                    self.tickets[i].mark_finished(TicketStatus::Failed, Some(note), now);
                }
                proof {
                    lemma_wf_same_ids(old(self)@, self@);
                }
                true
            },
        }
    }

    /// Begin the review step for `ticket_id`: record the review log
    /// path and mark the entry `RunningReview`.
    pub fn begin_review(&mut self, ticket_id: &str, log_path: String, now: i64) -> (r: bool)
        requires
            wf_state(old(self)@),
        ensures
            r == has_id(old(self)@.tickets, ticket_id@),
            !r ==> final(self)@ == old(self)@,
            r ==> Self::updated_at_id(
                old(self)@,
                final(self)@,
                ticket_id@,
                begun_review(entry_for(old(self)@.tickets, ticket_id@), log_path@, now),
            ),
            wf_state(final(self)@),
    {
        match self.index_of_id(ticket_id) {
            None => false,
            Some(i) => {
                proof {
                    lemma_only_index(self@.tickets, ticket_id@, i as int);
                }
                self.tickets[i].set_review_log(log_path);
                self.tickets[i].mark_running(TicketStatus::RunningReview, now);
                proof {
                    lemma_wf_same_ids(old(self)@, self@);
                }
                true
            },
        }
    }

    /// Record the review session's outcome for `ticket_id`.
    pub fn finish_review(
        &mut self,
        ticket_id: &str,
        success: bool,
        status_code: Option<i32>,
        now: i64,
    ) -> (r: bool)
        requires
            wf_state(old(self)@),
        ensures
            r == has_id(old(self)@.tickets, ticket_id@),
            !r ==> final(self)@ == old(self)@,
            r ==> Self::updated_at_id(
                old(self)@,
                final(self)@,
                ticket_id@,
                finished_review(entry_for(old(self)@.tickets, ticket_id@), success, status_code, now),
            ),
            wf_state(final(self)@),
    {
        match self.index_of_id(ticket_id) {
            None => false,
            Some(i) => {
                proof {
                    lemma_only_index(self@.tickets, ticket_id@, i as int);
                }
                if success {
                    self.tickets[i].mark_finished(
                        TicketStatus::Complete,
                        Some("Review passed".to_owned()),
                        now,
                    );
                } else {
                    let mut v = chars_of("Review failed with status ");
                    let mut c = chars_of(code_debug_text(status_code).as_str());
                    v.append(&mut c);
                    let note = string_of(&v);
                    self.tickets[i].mark_finished(TicketStatus::Failed, Some(note), now);
                }
                proof {
                    lemma_wf_same_ids(old(self)@, self@);
                }
                true
            },
        }
    }
}

/// The (unique, by well-formedness) entry carrying `id`.
pub open spec fn entry_for(tickets: Seq<TicketRunStateView>, id: Seq<char>) -> TicketRunStateView {
    tickets[choose|j: int| 0 <= j < tickets.len() && tickets[j].ticket_id == id]
}

/// In a well-formed sequence the index found for an id is the only one,
/// and `entry_for` names the entry at it.
pub proof fn lemma_only_index(tickets: Seq<TicketRunStateView>, id: Seq<char>, i: int)
    requires
        forall|a: int, b: int|
            0 <= a < b < tickets.len() ==> tickets[a].ticket_id != tickets[b].ticket_id,
        0 <= i < tickets.len(),
        tickets[i].ticket_id == id,
    ensures
        forall|j: int| 0 <= j < tickets.len() && tickets[j].ticket_id == id ==> j == i,
        entry_for(tickets, id) == tickets[i],
        has_id(tickets, id),
{
    assert forall|j: int| 0 <= j < tickets.len() && tickets[j].ticket_id == id implies j == i by {
        if j < i {
            assert(tickets[j].ticket_id != tickets[i].ticket_id);
        } else if j > i {
            assert(tickets[i].ticket_id != tickets[j].ticket_id);
        }
    };
}

/// Two states whose entries carry pairwise equal ids are equally
/// well-formed.
pub proof fn lemma_wf_same_ids(a: crate::state::WorkflowStateView, b: crate::state::WorkflowStateView)
    requires
        wf_state(a),
        a.tickets.len() == b.tickets.len(),
        forall|j: int|
            0 <= j < a.tickets.len() ==> a.tickets[j].ticket_id == #[trigger] b.tickets[j].ticket_id,
    ensures
        wf_state(b),
{
}

/// Abort the run before launching a session when a ticket's resolved
/// working directory is missing; this is a configuration fault, not a
/// per-ticket failure.
pub fn preflight_working_dir(
    working_dir_exists: bool,
    working_dir: &str,
    ticket_id: &str,
) -> (r: Result<(), WorkflowError>)
    ensures
        r is Ok <==> working_dir_exists,
        !working_dir_exists ==> (r matches Err(e) && e matches WorkflowError::MissingWorkingDir {
            working_dir: w,
            ticket_id: t,
        } && w@ == working_dir@ && t@ == ticket_id@),
{
    if working_dir_exists {
        Ok(())
    } else {
        Err(
            WorkflowError::MissingWorkingDir {
                working_dir: working_dir.to_owned(),
                ticket_id: ticket_id.to_owned(),
            },
        )
    }
}

/// Where a workflow's artifacts live: the explicit override, or
/// `.codex/workflows/<workflow name>` next to the manifest.
pub open spec fn artifacts_dir_spec(
    m: WorkflowManifestView,
    override_dir: Option<Seq<char>>,
) -> Seq<char> {
    match override_dir {
        Some(d) => d,
        None => join_spec(
            join_spec(join_spec(parent_dir_spec(m.source_path), ".codex"@), "workflows"@),
            workflow_name_spec(m),
        ),
    }
}

pub fn resolve_artifacts_dir(manifest: &WorkflowManifest, override_dir: &Option<String>) -> (r:
    String)
    ensures
        r@ == artifacts_dir_spec(manifest@, opt_view(*override_dir)),
{
    match override_dir {
        Some(d) => d.clone(),
        None => {
            let base = manifest.manifest_dir();
            let a = path_join(base.as_str(), ".codex");
            let b = path_join(a.as_str(), "workflows");
            let name = manifest.workflow_name();
            path_join(b.as_str(), name.as_str())
        },
    }
}

/// The outcome a run or status query reports: the workflow name, the
/// state file's path, and every ticket's run state.
#[derive(Debug, Clone)]
pub struct WorkflowStatusReport {
    pub workflow_name: String,
    pub state_path: String,
    pub tickets: Vec<TicketRunState>,
}

impl WorkflowStatusReport {
    /// Package a run state and the path it is persisted at.
    pub fn from_state(state: WorkflowState, state_path: String) -> (r: WorkflowStatusReport)
        ensures
            r.workflow_name@ == state@.workflow_name,
            r.state_path@ == state_path@,
            r.tickets@.map_values(|t: TicketRunState| t@) == state@.tickets,
    {
        WorkflowStatusReport { workflow_name: state.workflow_name, state_path, tickets: state.tickets }
    }
}

/// Build the status report for a state file that was found and read:
/// the workflow name, the path the state sits at, and every entry.
/// A missing or unparsable document is reported as such, never
/// invented.
pub fn load_status(state_text: &str, state_path: String) -> (r: Result<
    WorkflowStatusReport,
    WorkflowError,
>)
    ensures
        match r {
            Ok(rep) => crate::statefile::decode_spec(state_text@) matches Some(v)
                && rep.workflow_name@ == v.workflow_name && rep.state_path@ == state_path@
                && rep.tickets@.map_values(|t: TicketRunState| t@) == v.tickets,
            Err(e) => crate::statefile::decode_spec(state_text@) is None && (
            e matches WorkflowError::MalformedState),
        },
{
    match WorkflowState::load(state_text) {
        Ok(state) => Ok(WorkflowStatusReport::from_state(state, state_path)),
        Err(e) => Err(e),
    }
}

/// A ticket in `NeedsReview` (or `RunningReview`) is planned for the
/// review step only, and neither beginning nor finishing the review
/// touches its worker log.
pub proof fn lemma_resume_reviews_only(
    t: TicketRunStateView,
    log: Seq<char>,
    now: i64,
    success: bool,
    code: Option<i32>,
    later: i64,
)
    requires
        review_applicable(t.status),
    ensures
        plan_spec(t.status) == TicketPlan::ReviewOnly,
        begun_review(t, log, now).worker_log == t.worker_log,
        finished_review(begun_review(t, log, now), success, code, later).worker_log
            == t.worker_log,
{
}

/// A worker session that exits non-zero leaves the ticket `Failed`, and
/// a `Failed` ticket is skipped by every later run.
pub proof fn lemma_failed_worker_is_skipped(
    t: TicketRunStateView,
    code: Option<i32>,
    now: i64,
)
    ensures
        finished_worker(t, false, code, now).status == TicketStatus::Failed,
        plan_spec(finished_worker(t, false, code, now).status) == TicketPlan::Skip,
{
}

} // verus!
