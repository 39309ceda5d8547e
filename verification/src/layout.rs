//! The artifact layout: from a workflow root directory to the state
//! file, and per ticket to a sanitized subdirectory holding the worker
//! log, the review log and a patch directory.

use vstd::prelude::*;
use vstd::string::StrSliceExecFns;
use crate::paths::join_spec;
use crate::paths::path_join;
use crate::text::chars_of;
use crate::text::string_of;

verus! {

/// Characters that pass through ticket-id sanitization unchanged:
/// ASCII letters, digits, `-` and `_`.
pub open spec fn is_safe_char(c: char) -> bool {
    ('a' <= c && c <= 'z') || ('A' <= c && c <= 'Z') || ('0' <= c && c <= '9') || c == '-' || c
        == '_'
}

pub open spec fn sanitize_char(c: char) -> char {
    if is_safe_char(c) {
        c
    } else {
        '_'
    }
}

/// A ticket id made path-safe: every character outside the safe set
/// becomes `_`.
pub open spec fn sanitized(id: Seq<char>) -> Seq<char> {
    id.map_values(|c: char| sanitize_char(c))
}

/// The name of a ticket's directory under the workflow root.
pub open spec fn ticket_dir_name(id: Seq<char>) -> Seq<char> {
    "ticket-"@ + sanitized(id)
}

/// Replace every character of `id` outside the safe set with `_`.
pub fn sanitize(id: &str) -> (r: String)
    ensures
        r@ == sanitized(id@),
{
    let n: usize = id.unicode_len();
    let mut v: Vec<char> = Vec::new();
    let mut i: usize = 0;
    while i < n
        invariant
            n == id@.len(),
            i <= n,
            v@ == id@.subrange(0, i as int).map_values(|c: char| sanitize_char(c)),
        decreases n - i,
    {
        let c = id.get_char(i);
        if ('a' <= c && c <= 'z') || ('A' <= c && c <= 'Z') || ('0' <= c && c <= '9') || c == '-'
            || c == '_' {
            v.push(c);
        } else {
            v.push('_');
        }
        i = i + 1;
        proof {
            assert(v@ =~= id@.subrange(0, i as int).map_values(|c: char| sanitize_char(c)));
        }
    }
    proof {
        assert(id@.subrange(0, n as int) =~= id@);
    }
    string_of(&v)
}

/// Maps a workflow root directory to the canonical paths of the state
/// file and of each ticket's artifacts.
#[derive(Debug, Clone)]
pub struct WorkflowLayout {
    root: String,
}

impl WorkflowLayout {
    pub closed spec fn root_spec(&self) -> Seq<char> {
        self.root@
    }

    pub fn new(root: String) -> (r: WorkflowLayout)
        ensures
            r.root_spec() == root@,
    {
        WorkflowLayout { root }
    }

    pub fn root(&self) -> (r: &str)
        ensures
            r@ == self.root_spec(),
    {
        self.root.as_str()
    }

    /// Path of the persisted state file under the root.
    pub fn state_file(&self) -> (r: String)
        ensures
            r@ == join_spec(self.root_spec(), "state.json"@),
    {
        path_join(self.root.as_str(), "state.json")
    }

    /// Path of the directory holding one ticket's artifacts.
    pub fn ticket_dir(&self, ticket_id: &str) -> (r: String)
        ensures
            r@ == join_spec(self.root_spec(), ticket_dir_name(ticket_id@)),
    {
        let s = sanitize(ticket_id);
        let mut v = chars_of("ticket-");
        let mut sv = chars_of(s.as_str());
        v.append(&mut sv);
        let name = string_of(&v);
        path_join(self.root.as_str(), name.as_str())
    }

    /// Path of the worker session's log for one ticket.
    pub fn worker_log_path(&self, ticket_id: &str) -> (r: String)
        ensures
            r@ == join_spec(
                join_spec(self.root_spec(), ticket_dir_name(ticket_id@)),
                "worker.log"@,
            ),
    {
        let d = self.ticket_dir(ticket_id);
        path_join(d.as_str(), "worker.log")
    }

    /// Path of the review session's log for one ticket.
    pub fn review_log_path(&self, ticket_id: &str) -> (r: String)
        ensures
            r@ == join_spec(
                join_spec(self.root_spec(), ticket_dir_name(ticket_id@)),
                "review.log"@,
            ),
    {
        let d = self.ticket_dir(ticket_id);
        path_join(d.as_str(), "review.log")
    }

    /// Path of the directory a ticket's generated patches go to.
    pub fn patch_dir(&self, ticket_id: &str) -> (r: String)
        ensures
            r@ == join_spec(
                join_spec(self.root_spec(), ticket_dir_name(ticket_id@)),
                "patches"@,
            ),
    {
        let d = self.ticket_dir(ticket_id);
        path_join(d.as_str(), "patches")
    }
}

} // verus!
