//! Error values the orchestrator surfaces to its caller.  Each carries
//! the context (path, ticket) needed for an actionable message.

use vstd::prelude::*;
use crate::text::chars_of;
use crate::text::string_of;

verus! {

#[derive(Debug, Clone)]
pub enum WorkflowError {
    /// The manifest holds no tickets.
    EmptyManifest,
    /// Two manifest tickets share this id.
    DuplicateTicketId { ticket_id: String },
    /// A ticket's resolved working directory was not found; the run aborts.
    MissingWorkingDir { working_dir: String, ticket_id: String },
    /// The persisted state file does not parse.
    MalformedState,
}

impl WorkflowError {
    pub open spec fn message_spec(&self) -> Seq<char> {
        match self {
            WorkflowError::EmptyManifest => "workflow manifest must contain at least one ticket"@,
            WorkflowError::DuplicateTicketId { ticket_id } => "duplicate ticket id "@
                + ticket_id@,
            WorkflowError::MissingWorkingDir { working_dir, ticket_id } => "working directory "@
                + working_dir@ + " does not exist for ticket "@ + ticket_id@,
            WorkflowError::MalformedState => "parse workflow state json"@,
        }
    }

    /// A human-readable description of the error.
    pub fn message(&self) -> (r: String)
        ensures
            r@ == self.message_spec(),
    {
        match self {
            WorkflowError::EmptyManifest => "workflow manifest must contain at least one ticket"
                .to_owned(),
            WorkflowError::DuplicateTicketId { ticket_id } => {
                let mut v = chars_of("duplicate ticket id ");
                let mut idv = chars_of(ticket_id.as_str());
                v.append(&mut idv);
                string_of(&v)
            },
            WorkflowError::MissingWorkingDir { working_dir, ticket_id } => {
                let mut v = chars_of("working directory ");
                let mut wdv = chars_of(working_dir.as_str());
                v.append(&mut wdv);
                let mut midv = chars_of(" does not exist for ticket ");
                v.append(&mut midv);
                let mut idv = chars_of(ticket_id.as_str());
                v.append(&mut idv);
                string_of(&v)
            },
            WorkflowError::MalformedState => "parse workflow state json".to_owned(),
        }
    }
}

} // verus!
