//! The errors that end an operation, and the record of a step that was
//! skipped without ending it.

use vstd::prelude::*;

verus! {

/// What went wrong.
#[derive(Debug, Clone, Copy, PartialEq, Eq, Structural)]
pub enum ErrorKind {
    /// A store file or a snapshot file is missing.
    NotFound,
    /// Reading, writing or opening failed, a held lock included.
    Io,
    /// A document is no well-formed JSON.
    Parse,
}

/// The operation in which something went wrong.
#[derive(Debug, Clone, Copy, PartialEq, Eq, Structural)]
pub enum Operation {
    Clear,
    Restore,
}

/// One request to a store, by its purpose.
#[derive(Debug, Clone, Copy, PartialEq, Eq, Structural)]
pub enum Step {
    /// Deleting the row of a managed field.
    DeleteField,
    /// Writing the row of a managed field.
    WriteField,
    /// Reading the row of the marker.
    ReadMarker,
    /// Rendering the marker as text.
    RenderMarker,
    /// Writing the row of the marker.
    WriteMarker,
    /// Writing "0" to the row of the timestamp.
    ResetTimestamp,
}

/// An error that ends an operation.
#[derive(Debug, Clone, PartialEq, Eq)]
pub struct StateError {
    pub kind: ErrorKind,
    pub operation: Operation,
    /// The key or the path that the failing step was about, where there is one.
    pub key: Option<String>,
    /// What the failing component reported.
    pub cause: String,
}

impl StateError {
    /// The error of a store or a snapshot that is looked for and not there.
    pub fn not_found(operation: Operation, key: Option<String>, cause: String) -> (error: StateError)
        ensures
            error.kind == ErrorKind::NotFound,
            error.operation == operation,
            error.key == key,
            error.cause == cause,
    {
        StateError { kind: ErrorKind::NotFound, operation, key, cause }
    }

    /// The error of a file or a directory that is there and cannot be read
    /// or written.
    pub fn io(operation: Operation, path: String, cause: String) -> (error: StateError)
        ensures
            error.kind == ErrorKind::Io,
            error.operation == operation,
            error.key == Some(path),
            error.cause == cause,
    {
        StateError { kind: ErrorKind::Io, operation, key: Some(path), cause }
    }

    /// The error of a store that could not be opened: the store is missing
    /// where no file is at its path, and else it cannot be had for now, as
    /// when another process holds it.
    pub fn unopened(operation: Operation, path: String, file_exists: bool, cause: String) -> (error: StateError)
        ensures
            error.kind == if file_exists {
                ErrorKind::Io
            } else {
                ErrorKind::NotFound
            },
            error.operation == operation,
            error.key == Some(path),
            error.cause == cause,
    {
        let kind = if file_exists {
            ErrorKind::Io
        } else {
            ErrorKind::NotFound
        };
        StateError { kind, operation, key: Some(path), cause }
    }
}

/// A step that failed and was passed over.
#[derive(Debug, Clone, PartialEq, Eq)]
pub struct Skipped {
    pub step: Step,
    pub key: String,
    /// What the store, or the renderer, reported.
    pub cause: String,
}

/// A skipped step as a mathematical value.
pub struct SkippedView {
    pub step: Step,
    pub key: Seq<char>,
    pub cause: Seq<char>,
}

impl View for Skipped {
    type V = SkippedView;

    open spec fn view(&self) -> SkippedView {
        SkippedView { step: self.step, key: self.key@, cause: self.cause@ }
    }
}

/// The records of a list of skipped steps.
pub open spec fn skipped_views(list: Seq<Skipped>) -> Seq<SkippedView> {
    list.map_values(|s: Skipped| s@)
}

} // verus!
