//! Restoring a store from a snapshot: writing the rows of the managed
//! fields that the snapshot holds, and entering them into the marker with
//! the flags that the snapshot recorded.

pub mod session;
pub mod table;

pub use session::{
    law_restore_advances, law_restore_enters_written, plan_entries, plan_restore, planned_writes, restore_plan, timestamp_reset_value, FieldWrite,
    FieldWriteView, RestoreReport, RestoreSession, RestoreSessionView, RestoreStage,
};
pub use table::{
    enters_any, lemma_restored_fields, reports_restore, restore_database, restored_fields, restored_marker, restored_rows, restored_skips,
    restores, written_rows,
};
