//! The persisted run state: one entry per ticket, with the finite
//! status machine and the two mutations the orchestrator applies
//! ("mark running" and "mark finished").  Timestamps are integer
//! milliseconds supplied by the caller's clock.

use vstd::prelude::*;
use crate::manifest::WorkflowManifest;
use crate::manifest::unique_ids;
use crate::manifest::workflow_name_spec;
use crate::text::str_eq;

verus! {

/// The finite status of one ticket within a run.
#[derive(Debug, Clone, Copy, PartialEq, Eq, Structural)]
pub enum TicketStatus {
    Pending,
    RunningWorker,
    NeedsReview,
    RunningReview,
    Complete,
    Failed,
    Blocked,
}

impl TicketStatus {
    /// A terminal status is never left: the ticket is skipped entirely.
    pub open spec fn is_terminal(self) -> bool {
        self == TicketStatus::Complete || self == TicketStatus::Failed || self
            == TicketStatus::Blocked
    }

    /// The status's lowercase-with-underscore name, as the state file
    /// spells it.
    pub open spec fn name_spec(self) -> Seq<char> {
        match self {
            TicketStatus::Pending => "pending"@,
            TicketStatus::RunningWorker => "running_worker"@,
            TicketStatus::NeedsReview => "needs_review"@,
            TicketStatus::RunningReview => "running_review"@,
            TicketStatus::Complete => "complete"@,
            TicketStatus::Failed => "failed"@,
            TicketStatus::Blocked => "blocked"@,
        }
    }

    pub fn status_name(&self) -> (r: String)
        ensures
            r@ == self.name_spec(),
    {
        match self {
            TicketStatus::Pending => "pending".to_owned(),
            TicketStatus::RunningWorker => "running_worker".to_owned(),
            TicketStatus::NeedsReview => "needs_review".to_owned(),
            TicketStatus::RunningReview => "running_review".to_owned(),
            TicketStatus::Complete => "complete".to_owned(),
            TicketStatus::Failed => "failed".to_owned(),
            TicketStatus::Blocked => "blocked".to_owned(),
        }
    }

    /// The status named by `s`, if any.
    pub fn parse_status(s: &str) -> (r: Option<TicketStatus>)
        ensures
            r == status_of_name(s@),
    {
        if str_eq(s, "pending") {
            Some(TicketStatus::Pending)
        } else if str_eq(s, "running_worker") {
            Some(TicketStatus::RunningWorker)
        } else if str_eq(s, "needs_review") {
            Some(TicketStatus::NeedsReview)
        } else if str_eq(s, "running_review") {
            Some(TicketStatus::RunningReview)
        } else if str_eq(s, "complete") {
            Some(TicketStatus::Complete)
        } else if str_eq(s, "failed") {
            Some(TicketStatus::Failed)
        } else if str_eq(s, "blocked") {
            Some(TicketStatus::Blocked)
        } else {
            None
        }
    }
}

/// The status a name denotes, if any.
pub open spec fn status_of_name(s: Seq<char>) -> Option<TicketStatus> {
    if s == "pending"@ {
        Some(TicketStatus::Pending)
    } else if s == "running_worker"@ {
        Some(TicketStatus::RunningWorker)
    } else if s == "needs_review"@ {
        Some(TicketStatus::NeedsReview)
    } else if s == "running_review"@ {
        Some(TicketStatus::RunningReview)
    } else if s == "complete"@ {
        Some(TicketStatus::Complete)
    } else if s == "failed"@ {
        Some(TicketStatus::Failed)
    } else if s == "blocked"@ {
        Some(TicketStatus::Blocked)
    } else {
        None
    }
}

/// Naming a status and looking the name up round-trips: the seven
/// names are pairwise distinct.
pub proof fn lemma_status_name_inverts(st: TicketStatus)
    ensures
        status_of_name(st.name_spec()) == Some(st),
{
    reveal_strlit("pending");
    reveal_strlit("running_worker");
    reveal_strlit("needs_review");
    reveal_strlit("running_review");
    reveal_strlit("complete");
    reveal_strlit("failed");
    reveal_strlit("blocked");
    assert("pending"@.len() == 7);
    assert("running_worker"@.len() == 14);
    assert("needs_review"@.len() == 12);
    assert("running_review"@.len() == 14);
    assert("complete"@.len() == 8);
    assert("failed"@.len() == 6);
    assert("blocked"@.len() == 7);
    assert("pending"@[0] == 'p');
    assert("blocked"@[0] == 'b');
    assert("running_worker"@[8] == 'w');
    assert("running_review"@[8] == 'r');
}

pub struct TicketRunStateView {
    pub ticket_id: Seq<char>,
    pub status: TicketStatus,
    pub worker_log: Option<Seq<char>>,
    pub review_log: Option<Seq<char>>,
    pub note: Option<Seq<char>>,
    pub started_at: Option<i64>,
    pub finished_at: Option<i64>,
}

/// The recorded progress of one ticket.
#[derive(Debug, Clone)]
pub struct TicketRunState {
    pub ticket_id: String,
    pub status: TicketStatus,
    pub worker_log: Option<String>,
    pub review_log: Option<String>,
    pub note: Option<String>,
    pub started_at: Option<i64>,
    pub finished_at: Option<i64>,
}

impl View for TicketRunState {
    type V = TicketRunStateView;

    open spec fn view(&self) -> TicketRunStateView {
        TicketRunStateView {
            ticket_id: self.ticket_id@,
            status: self.status,
            worker_log: crate::manifest::opt_view(self.worker_log),
            review_log: crate::manifest::opt_view(self.review_log),
            note: crate::manifest::opt_view(self.note),
            started_at: self.started_at,
            finished_at: self.finished_at,
        }
    }
}

/// The entry a ticket starts from: `Pending`, no logs, no note, no
/// timestamps.
pub open spec fn fresh_pending(id: Seq<char>) -> TicketRunStateView {
    TicketRunStateView {
        ticket_id: id,
        status: TicketStatus::Pending,
        worker_log: None,
        review_log: None,
        note: None,
        started_at: None,
        finished_at: None,
    }
}

impl TicketRunState {
    /// A fresh `Pending` entry for `ticket_id`.
    pub fn new_pending(ticket_id: String) -> (t: TicketRunState)
        ensures
            t@ == fresh_pending(ticket_id@),
    {
        TicketRunState {
            ticket_id,
            status: TicketStatus::Pending,
            worker_log: None,
            review_log: None,
            note: None,
            started_at: None,
            finished_at: None,
        }
    }

    /// Enter a running status: keep the first start time, clear the note.
    pub fn mark_running(&mut self, status: TicketStatus, now: i64)
        ensures
            final(self)@ == (TicketRunStateView {
                status,
                note: None,
                started_at: if old(self)@.started_at is Some {
                    old(self)@.started_at
                } else {
                    Some(now)
                },
                ..old(self)@
            }),
    {
        self.status = status;
        if self.started_at.is_none() {
            self.started_at = Some(now);
        }
        self.note = None;
    }

    /// Enter a finishing status: record the note and the finish time.
    pub fn mark_finished(&mut self, status: TicketStatus, note: Option<String>, now: i64)
        ensures
            final(self)@ == (TicketRunStateView {
                status,
                note: crate::manifest::opt_view(note),
                finished_at: Some(now),
                ..old(self)@
            }),
    {
        self.status = status;
        self.note = note;
        self.finished_at = Some(now);
    }

    /// Set the status and the note, leaving both timestamps alone (the
    /// worker-succeeded transition pauses at `NeedsReview` without a
    /// finish time).
    pub fn set_status_note(&mut self, status: TicketStatus, note: String)
        ensures
            final(self)@ == (TicketRunStateView {
                status,
                note: Some(note@),
                ..old(self)@
            }),
    {
        self.status = status;
        self.note = Some(note);
    }

    /// Record where the worker session's log is written.
    pub fn set_worker_log(&mut self, log_path: String)
        ensures
            final(self)@ == (TicketRunStateView { worker_log: Some(log_path@), ..old(self)@ }),
    {
        self.worker_log = Some(log_path);
    }

    /// Record where the review session's log is written.
    pub fn set_review_log(&mut self, log_path: String)
        ensures
            final(self)@ == (TicketRunStateView { review_log: Some(log_path@), ..old(self)@ }),
    {
        self.review_log = Some(log_path);
    }
}

/// Some entry carries this ticket id.
pub open spec fn has_id(tickets: Seq<TicketRunStateView>, id: Seq<char>) -> bool {
    exists|j: int| 0 <= j < tickets.len() && tickets[j].ticket_id == id
}

/// The entries `sync_with_manifest` appends: a fresh `Pending` entry for
/// each manifest ticket whose id the state does not know yet, in
/// manifest order.
pub open spec fn added_entries(
    old_tickets: Seq<TicketRunStateView>,
    specs: Seq<crate::manifest::TicketSpecView>,
) -> Seq<TicketRunStateView>
    decreases specs.len(),
{
    if specs.len() == 0 {
        Seq::empty()
    } else {
        let rest = added_entries(old_tickets, specs.drop_last());
        if has_id(old_tickets, specs.last().id) {
            rest
        } else {
            rest.push(fresh_pending(specs.last().id))
        }
    }
}

/// Every appended entry is fresh, carries a manifest id, and fills a gap:
/// its id is not in the old state.
pub proof fn lemma_added_entries_ids(
    old_tickets: Seq<TicketRunStateView>,
    specs: Seq<crate::manifest::TicketSpecView>,
)
    ensures
        added_entries(old_tickets, specs).len() <= specs.len(),
        forall|j: int|
            0 <= j < added_entries(old_tickets, specs).len() ==> exists|i: int|
                0 <= i < specs.len() && #[trigger] added_entries(old_tickets, specs)[j]
                    == fresh_pending(specs[i].id) && !has_id(old_tickets, specs[i].id),
    decreases specs.len(),
{
    if specs.len() > 0 {
        lemma_added_entries_ids(old_tickets, specs.drop_last());
        let added = added_entries(old_tickets, specs);
        let rest = added_entries(old_tickets, specs.drop_last());
        assert forall|j: int| 0 <= j < added.len() implies exists|i: int|
            0 <= i < specs.len() && #[trigger] added[j] == fresh_pending(specs[i].id) && !has_id(
                old_tickets,
                specs[i].id,
            ) by {
            if j < rest.len() {
                let i = choose|i: int|
                    0 <= i < specs.drop_last().len() && #[trigger] rest[j] == fresh_pending(
                        specs.drop_last()[i].id,
                    ) && !has_id(old_tickets, specs.drop_last()[i].id);
                assert(specs.drop_last()[i] == specs[i]);
                assert(added[j] == fresh_pending(specs[i].id));
            } else {
                assert(added[j] == fresh_pending(specs[specs.len() - 1].id));
            }
        };
    }
}

/// For a manifest with unique ids the appended entries carry pairwise
/// distinct ids.
pub proof fn lemma_added_entries_distinct(
    old_tickets: Seq<TicketRunStateView>,
    specs: Seq<crate::manifest::TicketSpecView>,
)
    requires
        unique_ids(specs),
    ensures
        forall|a: int, b: int|
            0 <= a < b < added_entries(old_tickets, specs).len()
                ==> added_entries(old_tickets, specs)[a].ticket_id != added_entries(
                old_tickets,
                specs,
            )[b].ticket_id,
    decreases specs.len(),
{
    if specs.len() > 0 {
        let added = added_entries(old_tickets, specs);
        let rest = added_entries(old_tickets, specs.drop_last());
        assert(unique_ids(specs.drop_last())) by {
            assert(forall|i: int|
                0 <= i < specs.drop_last().len() ==> specs.drop_last()[i] == specs[i]);
        };
        lemma_added_entries_distinct(old_tickets, specs.drop_last());
        lemma_added_entries_ids(old_tickets, specs.drop_last());
        if !has_id(old_tickets, specs.last().id) {
            assert forall|a: int, b: int|
                0 <= a < b < added.len() implies added[a].ticket_id != added[b].ticket_id by {
                if b == added.len() - 1 {
                    let i = choose|i: int|
                        0 <= i < specs.drop_last().len() && #[trigger] rest[a] == fresh_pending(
                            specs.drop_last()[i].id,
                        ) && !has_id(old_tickets, specs.drop_last()[i].id);
                    assert(specs.drop_last()[i] == specs[i]);
                    assert(specs[i].id != specs[specs.len() - 1].id);
                    assert(added[a] == rest[a]);
                } else {
                    assert(added[a] == rest[a]);
                    assert(added[b] == rest[b]);
                }
            };
        }
    }
}

pub struct WorkflowStateView {
    pub workflow_name: Seq<char>,
    pub tickets: Seq<TicketRunStateView>,
}

/// The single persisted aggregate for a run: the workflow name and one
/// run-state entry per known ticket, keyed by unique ticket ids.
#[derive(Debug, Clone)]
pub struct WorkflowState {
    pub workflow_name: String,
    pub tickets: Vec<TicketRunState>,
}

impl View for WorkflowState {
    type V = WorkflowStateView;

    open spec fn view(&self) -> WorkflowStateView {
        WorkflowStateView {
            workflow_name: self.workflow_name@,
            tickets: self.tickets@.map_values(|t: TicketRunState| t@),
        }
    }
}

/// The state's invariant: entries carry pairwise distinct ticket ids.
pub open spec fn wf_state(s: WorkflowStateView) -> bool {
    forall|i: int, j: int|
        0 <= i < j < s.tickets.len() ==> s.tickets[i].ticket_id != s.tickets[j].ticket_id
}

impl WorkflowState {
    /// A fresh state for a validated manifest: exactly one `Pending`
    /// entry per ticket, in manifest order.
    pub fn initialize(manifest: &WorkflowManifest) -> (s: WorkflowState)
        requires
            unique_ids(manifest@.tickets),
        ensures
            s@.workflow_name == workflow_name_spec(manifest@),
            s@.tickets.len() == manifest@.tickets.len(),
            forall|i: int|
                0 <= i < manifest@.tickets.len() ==> s@.tickets[i] == fresh_pending(
                    #[trigger] manifest@.tickets[i].id,
                ),
            wf_state(s@),
    {
        let n: usize = manifest.tickets.len();
        let mut tickets: Vec<TicketRunState> = Vec::new();
        let mut i: usize = 0;
        while i < n
            invariant
                i <= n,
                n == manifest@.tickets.len(),
                tickets@.len() == i,
                forall|k: int|
                    0 <= k < i ==> tickets@[k]@ == fresh_pending(
                        #[trigger] manifest@.tickets[k].id,
                    ),
            decreases n - i,
        {
            tickets.push(TicketRunState::new_pending(manifest.tickets[i].id.clone()));
            proof {
                assert(manifest@.tickets[i as int].id == manifest.tickets@[i as int]@.id);
            }
            i = i + 1;
        }
        let s = WorkflowState { workflow_name: manifest.workflow_name(), tickets };
        proof {
            assert forall|a: int, b: int|
                0 <= a < b < s@.tickets.len() implies s@.tickets[a].ticket_id
                != s@.tickets[b].ticket_id by {
                assert(s@.tickets[a] == fresh_pending(manifest@.tickets[a].id));
                assert(s@.tickets[b] == fresh_pending(manifest@.tickets[b].id));
                assert(manifest@.tickets[a].id != manifest@.tickets[b].id);
            };
        }
        s
    }

    /// Index of the entry carrying `ticket_id`, if any.
    pub fn index_of_id(&self, ticket_id: &str) -> (r: Option<usize>)
        ensures
            match r {
                Some(i) => i < self@.tickets.len() && self@.tickets[i as int].ticket_id
                    == ticket_id@ && forall|j: int|
                    0 <= j < i ==> self@.tickets[j].ticket_id != ticket_id@,
                None => !has_id(self@.tickets, ticket_id@),
            },
    {
        let n: usize = self.tickets.len();
        let mut i: usize = 0;
        while i < n
            invariant
                i <= n,
                n == self@.tickets.len(),
                forall|j: int| 0 <= j < i ==> self@.tickets[j].ticket_id != ticket_id@,
            decreases n - i,
        {
            if str_eq(self.tickets[i].ticket_id.as_str(), ticket_id) {
                proof {
                    assert(self@.tickets[i as int].ticket_id == self.tickets@[i as int]@.ticket_id);
                }
                return Some(i);
            }
            proof {
                assert(self@.tickets[i as int].ticket_id == self.tickets@[i as int]@.ticket_id);
            }
            i = i + 1;
        }
        None
    }

    /// The entry for `ticket_id`, if any.
    pub fn ticket(&self, ticket_id: &str) -> (r: Option<&TicketRunState>)
        ensures
            match r {
                Some(t) => has_id(self@.tickets, ticket_id@) && exists|i: int|
                    0 <= i < self@.tickets.len() && #[trigger] self@.tickets[i] == t@
                        && self@.tickets[i].ticket_id == ticket_id@,
                None => !has_id(self@.tickets, ticket_id@),
            },
    {
        match self.index_of_id(ticket_id) {
            Some(i) => {
                proof {
                    assert(self@.tickets[i as int] == self.tickets@[i as int]@);
                }
                Some(&self.tickets[i])
            },
            None => None,
        }
    }

    /// Insert a fresh `Pending` entry for every manifest ticket the
    /// state has no entry for; never touch an existing entry.
    pub fn sync_with_manifest(&mut self, manifest: &WorkflowManifest)
        requires
            unique_ids(manifest@.tickets),
            wf_state(old(self)@),
        ensures
            final(self)@.workflow_name == old(self)@.workflow_name,
            final(self)@.tickets == old(self)@.tickets + added_entries(
                old(self)@.tickets,
                manifest@.tickets,
            ),
            wf_state(final(self)@),
    {
        let ghost old_tickets = self@.tickets;
        let n: usize = manifest.tickets.len();
        let mut k: usize = 0;
        while k < n
            invariant
                k <= n,
                n == manifest@.tickets.len(),
                unique_ids(manifest@.tickets),
                self@.workflow_name == old(self)@.workflow_name,
                old_tickets == old(self)@.tickets,
                self@.tickets == old_tickets + added_entries(
                    old_tickets,
                    manifest@.tickets.take(k as int),
                ),
            decreases n - k,
        {
            let ghost prefix = manifest@.tickets.take(k as int);
            let ghost added = added_entries(old_tickets, prefix);
            let ghost id = manifest@.tickets[k as int].id;
            proof {
                assert(manifest@.tickets.take(k + 1).drop_last() =~= prefix);
                assert(manifest@.tickets.take(k + 1).last() == manifest@.tickets[k as int]);
            }
            let found = self.index_of_id(manifest.tickets[k].id.as_str());
            proof {
                assert(manifest.tickets@[k as int]@.id == id);
                lemma_added_entries_ids(old_tickets, prefix);
            }
            match found {
                None => {
                    proof {
                        if has_id(old_tickets, id) {
                            let j = choose|j: int|
                                0 <= j < old_tickets.len() && old_tickets[j].ticket_id == id;
                            assert(self@.tickets[j] == old_tickets[j]);
                            assert(has_id(self@.tickets, id));
                            assert(false);
                        }
                    }
                    let ghost pre_view = self@.tickets;
                    self.tickets.push(
                        TicketRunState::new_pending(manifest.tickets[k].id.clone()),
                    );
                    proof {
                        assert(added_entries(old_tickets, manifest@.tickets.take(k + 1))
                            == added.push(fresh_pending(id)));
                        assert(self@.tickets =~= pre_view.push(fresh_pending(id)));
                        assert(pre_view.push(fresh_pending(id)) =~= old_tickets + added.push(
                            fresh_pending(id),
                        ));
                    }
                },
                Some(i) => {
                    proof {
                        if i >= old_tickets.len() {
                            let j = i - old_tickets.len();
                            assert(self@.tickets[i as int] == added[j]);
                            let w = choose|w: int|
                                0 <= w < prefix.len() && #[trigger] added[j] == fresh_pending(
                                    prefix[w].id,
                                ) && !has_id(old_tickets, prefix[w].id);
                            assert(prefix[w] == manifest@.tickets[w]);
                            assert(manifest@.tickets[w].id == id);
                            assert(false);
                        }
                        assert(old_tickets[i as int].ticket_id == id);
                        assert(has_id(old_tickets, id));
                        assert(self@.tickets =~= old_tickets + added_entries(
                            old_tickets,
                            manifest@.tickets.take(k + 1),
                        ));
                    }
                },
            }
            k = k + 1;
        }
        proof {
            assert(manifest@.tickets.take(n as int) =~= manifest@.tickets);
            lemma_added_entries_ids(old_tickets, manifest@.tickets);
            lemma_added_entries_distinct(old_tickets, manifest@.tickets);
            let added = added_entries(old_tickets, manifest@.tickets);
            assert forall|a: int, b: int|
                0 <= a < b < self@.tickets.len() implies self@.tickets[a].ticket_id
                != self@.tickets[b].ticket_id by {
                let m = old_tickets.len() as int;
                if b < m {
                } else if a >= m {
                    assert(self@.tickets[a] == added[a - m]);
                    assert(self@.tickets[b] == added[b - m]);
                } else {
                    assert(self@.tickets[a] == old_tickets[a]);
                    assert(self@.tickets[b] == added[b - m]);
                    let i = choose|i: int|
                        0 <= i < manifest@.tickets.len() && #[trigger] added[b - m]
                            == fresh_pending(manifest@.tickets[i].id) && !has_id(
                            old_tickets,
                            manifest@.tickets[i].id,
                        );
                    if self@.tickets[a].ticket_id == self@.tickets[b].ticket_id {
                        assert(old_tickets[a].ticket_id == manifest@.tickets[i].id);
                        assert(has_id(old_tickets, manifest@.tickets[i].id));
                        assert(false);
                    }
                }
            };
        }
    }
}

} // verus!
