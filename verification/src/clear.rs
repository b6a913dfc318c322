//! Clearing a store: deleting the rows of the managed fields and taking
//! their entries out of the marker.

pub mod session;
pub mod table;

pub use session::{law_clear_advances, ClearReport, ClearSession, ClearSessionView, ClearStage};
pub use table::{clear_database, cleared_rows, cleared_skips, present_count, reports_clear};
