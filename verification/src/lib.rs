//! A workflow orchestrator core: a manifest model, an artifact layout,
//! a persisted run state with a crash-safe on-disk encoding, and the
//! decision logic that sequences a worker step and a review step per
//! ticket.  All path and time values are held as plain strings and
//! integer timestamps so that every rule can be stated and checked.

pub mod errors;
pub mod layout;
pub mod manifest;
pub mod num;
pub mod orchestrator;
pub mod paths;
pub mod prompts;
pub mod session;
pub mod state;
pub mod statefile;
pub mod text;

pub use errors::WorkflowError;
pub use layout::WorkflowLayout;
pub use manifest::TicketSpec;
pub use manifest::WorkflowManifest;
pub use orchestrator::WorkflowStatusReport;
pub use orchestrator::load_status;
pub use session::SessionLauncher;
pub use session::SessionRequest;
pub use session::SessionResult;
pub use state::TicketRunState;
pub use state::TicketStatus;
pub use state::WorkflowState;
