//! Snapshots: the saved state of one account.
//!
//! A snapshot is a JSON object. Its managed fields are members with string
//! values, and the marker as it was when the snapshot was taken is a member
//! under the marker's key.

use vstd::prelude::*;
use crate::config::FieldConfig;
use crate::error::{ErrorKind, Operation, StateError};
use crate::json::{
    empty_object, json_document, member_object, member_text, object_members,
    parse_object, text_member, Json,
};
use crate::marker::{marker_members, Marker};

verus! {

/// A parsed snapshot.
#[derive(Debug)]
pub struct Snapshot {
    members: serde_json::Map<String, serde_json::Value>,
    marker: Option<Marker>,
}

/// A snapshot as a mathematical value: its members, and the entries of the
/// marker it recorded, if it recorded one.
pub struct SnapshotView {
    pub members: Map<Seq<char>, Json>,
    pub marker: Option<Map<Seq<char>, Json>>,
}

impl SnapshotView {
    /// The value that the snapshot holds for a field: the string under the
    /// field's key.
    pub open spec fn field_value(self, key: Seq<char>) -> Option<Seq<char>> {
        member_text(self.members, key)
    }
}

impl View for Snapshot {
    type V = SnapshotView;

    closed spec fn view(&self) -> SnapshotView {
        SnapshotView {
            members: object_members(self.members),
            marker: match self.marker {
                Some(m) => Some(m@),
                None => None,
            },
        }
    }
}

/// The snapshot that a text stands for, where it is a JSON document. A
/// document that is no object stands for a snapshot without members.
pub open spec fn snapshot_of(text: Seq<char>, marker_key: Seq<char>) -> Option<SnapshotView> {
    match json_document(text) {
        Some(document) => {
            let members = match document {
                Json::Object(members) => members,
                _ => Map::empty(),
            };
            Some(SnapshotView { members, marker: member_object(members, marker_key) })
        },
        None => None,
    }
}

impl Snapshot {
    /// Parses the text of a snapshot file. The one error is a text that is
    /// no JSON document.
    pub fn parse(text: &str, config: &FieldConfig) -> (r: Result<Snapshot, StateError>)
        ensures
            match r {
                Ok(snapshot) => snapshot_of(text@, config@.marker_key) == Some(snapshot@),
                Err(e) => {
                    &&& snapshot_of(text@, config@.marker_key) is None
                    &&& e.kind == ErrorKind::Parse
                    &&& e.operation == Operation::Restore
                    &&& e.key is None
                },
            },
    {
        match parse_object(text) {
            Ok(found) => {
                let members = match found {
                    Some(object) => object,
                    None => empty_object(),
                };
                let marker = Marker::member_of(&members, config.marker_key());
                Ok(Snapshot { members, marker })
            },
            Err(e) => Err(
                StateError { kind: ErrorKind::Parse, operation: Operation::Restore, key: None, cause: e.to_string() },
            ),
        }
    }

    /// The value that the snapshot holds for a field, where it holds a
    /// string under the field's key.
    pub fn field_value(&self, key: &str) -> (value: Option<String>)
        ensures
            match value {
                Some(text) => self@.field_value(key@) == Some(text@),
                None => self@.field_value(key@) is None,
            },
    {
        text_member(&self.members, key)
    }

    /// The marker that the snapshot recorded, if it recorded one.
    pub fn marker(&self) -> (marker: Option<&Marker>)
        ensures
            marker_members(marker) == self@.marker,
    {
        self.marker.as_ref()
    }
}

} // verus!
