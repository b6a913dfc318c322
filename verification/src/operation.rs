//! The two operations on the stores of an installation: the primary store,
//! which every operation needs, and the replica beside it, which is kept
//! in step as far as it goes and is never a reason to fail.

use vstd::prelude::*;
use crate::clear::{clear_database, cleared_rows, reports_clear, ClearReport};
use crate::config::FieldConfig;
use crate::error::{ErrorKind, Operation, StateError};
use crate::restore::{reports_restore, restore_database, restored_rows, RestoreReport};
use crate::snapshot::{snapshot_of, Snapshot};
use crate::store::KeyStore;

verus! {

/// What an operation did: the report on the primary store, the report on
/// the replica where there is one and it could be worked on, and the error
/// that kept the replica from being worked on.
#[derive(Debug, Clone, PartialEq, Eq)]
pub struct Summary<R> {
    pub primary: R,
    pub replica: Option<R>,
    pub replica_error: Option<StateError>,
}

/// The outcome of an operation, from what came of its two stores.
///
/// The operation fails exactly if the primary store could not be worked
/// on, and then with that store's error. A replica that could not be
/// worked on is put on record and does not fail the operation.
pub fn conclude<R>(primary: Result<R, StateError>, replica: Option<Result<R, StateError>>) -> (outcome: Result<Summary<R>, StateError>)
    ensures
        match primary {
            Ok(report) => outcome == Ok::<Summary<R>, StateError>(
                Summary {
                    primary: report,
                    replica: match replica {
                        Some(Ok(r)) => Some(r),
                        _ => None,
                    },
                    replica_error: match replica {
                        Some(Err(e)) => Some(e),
                        _ => None,
                    },
                },
            ),
            Err(e) => outcome == Err::<Summary<R>, StateError>(e),
        },
{
    match primary {
        Ok(report) => match replica {
            Some(Ok(r)) => Ok(Summary { primary: report, replica: Some(r), replica_error: None }),
            Some(Err(e)) => Ok(Summary { primary: report, replica: None, replica_error: Some(e) }),
            None => Ok(Summary { primary: report, replica: None, replica_error: None }),
        },
        Err(e) => Err(e),
    }
}

/// The stores of an installation, as tables in memory.
#[derive(Debug)]
pub struct StorePair {
    pub primary: KeyStore,
    pub replica: Option<KeyStore>,
}

/// The rows of a store that may be absent.
pub open spec fn rows_of(store: Option<KeyStore>) -> Option<Map<Seq<char>, Seq<char>>> {
    match store {
        Some(s) => Some(s@),
        None => None,
    }
}

/// Clears the managed fields of both stores.
pub fn clear_all_antigravity_data(stores: &mut StorePair, config: &FieldConfig) -> (summary: Summary<ClearReport>)
    ensures
        final(stores).primary@ == cleared_rows(old(stores).primary@, config@),
        reports_clear(summary.primary, old(stores).primary@, config@),
        match old(stores).replica {
            Some(replica) => {
                &&& rows_of(final(stores).replica) == Some(cleared_rows(replica@, config@))
                &&& summary.replica is Some
                &&& reports_clear(summary.replica->0, replica@, config@)
            },
            None => final(stores).replica is None && summary.replica is None,
        },
        summary.replica_error is None,
{
    let primary = clear_database(&mut stores.primary, config);
    let replica = match &mut stores.replica {
        Some(store) => Some(clear_database(store, config)),
        None => None,
    };
    Summary { primary, replica, replica_error: None }
}

/// Restores both stores from the text of a snapshot file.
///
/// The text is parsed before a store is touched: a text that is no JSON
/// document is an error that leaves both stores as they were.
pub fn restore_all_antigravity_data(stores: &mut StorePair, snapshot_text: &str, config: &FieldConfig) -> (outcome: Result<
    Summary<RestoreReport>,
    StateError,
>)
    ensures
        match snapshot_of(snapshot_text@, config@.marker_key) {
            Some(snapshot) => {
                &&& outcome is Ok
                &&& final(stores).primary@ == restored_rows(old(stores).primary@, snapshot, config@)
                &&& reports_restore(outcome->Ok_0.primary, old(stores).primary@, snapshot, config@)
                &&& match old(stores).replica {
                    Some(replica) => {
                        &&& rows_of(final(stores).replica) == Some(restored_rows(replica@, snapshot, config@))
                        &&& outcome->Ok_0.replica is Some
                        &&& reports_restore(outcome->Ok_0.replica->0, replica@, snapshot, config@)
                    },
                    None => final(stores).replica is None && outcome->Ok_0.replica is None,
                }
                &&& outcome->Ok_0.replica_error is None
            },
            None => {
                &&& outcome is Err
                &&& outcome->Err_0.kind == ErrorKind::Parse
                &&& outcome->Err_0.operation == Operation::Restore
                &&& *final(stores) == *old(stores)
            },
        },
{
    match Snapshot::parse(snapshot_text, config) {
        Ok(snapshot) => {
            let primary = restore_database(&mut stores.primary, &snapshot, config);
            let replica = match &mut stores.replica {
                Some(store) => Some(restore_database(store, &snapshot, config)),
                None => None,
            };
            Ok(Summary { primary, replica, replica_error: None })
        },
        Err(e) => Err(e),
    }
}

} // verus!
