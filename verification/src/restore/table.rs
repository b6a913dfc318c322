//! A restore of a table in memory, in which no command fails: what it
//! leaves of the table, and the proof that the session does so.

use vstd::prelude::*;
use crate::config::{FieldConfig, FieldConfigView, ManagedFieldView};
use crate::error::{skipped_views, SkippedView, Step};
use crate::json::{json_text, Json};
use crate::marker::{
    entered, entry_views, marker_entry, marker_of_row, merged_marker, render_cause, resolved_flag,
    with_flags, MarkerUpdateView,
};
use crate::restore::session::{
    plan_entries, planned_writes, restore_plan, timestamp_reset_value, FieldWriteView, RestoreReport,
    RestoreSession, RestoreSessionView, RestoreStage,
};
use crate::snapshot::{Snapshot, SnapshotView};
use crate::store::{reply_to, rows_after, KeyStore};

verus! {

/// Whether a restore writes the row of `key`: it is a managed field, and
/// the snapshot holds a string for it.
pub open spec fn restores(snapshot: SnapshotView, config: FieldConfigView, key: Seq<char>) -> bool {
    config.is_managed(key) && snapshot.field_value(key) is Some
}

/// The fields that a restore writes, in the order of the configuration.
pub open spec fn restored_fields(snapshot: SnapshotView, config: FieldConfigView) -> Seq<Seq<char>> {
    restore_plan(snapshot, config).map_values(|w: FieldWriteView| w.key)
}

/// Whether a restore enters a field into the marker.
pub open spec fn enters_any(snapshot: SnapshotView, config: FieldConfigView) -> bool {
    exists|key: Seq<char>| entered(restored_fields(snapshot, config), config, key)
}

/// The rows of a store after the fields of a snapshot were written: each
/// managed field for which the snapshot holds a string has that string, and
/// every other row is as before.
pub open spec fn written_rows(rows: Map<Seq<char>, Seq<char>>, snapshot: SnapshotView, config: FieldConfigView) -> Map<Seq<char>, Seq<char>> {
    Map::new(
        |key: Seq<char>| rows.contains_key(key) || restores(snapshot, config, key),
        |key: Seq<char>|
            if restores(snapshot, config, key) {
                snapshot.field_value(key)->0
            } else {
                rows[key]
            },
    )
}

/// What a restore does to the row of the marker when no command fails:
/// nothing where no written field is entered, and else a rewrite with the
/// text of the merged marker.
pub open spec fn restored_marker(rows: Map<Seq<char>, Seq<char>>, snapshot: SnapshotView, config: FieldConfigView) -> MarkerUpdateView {
    if enters_any(snapshot, config) {
        let merged = merged_marker(
            marker_of_row(rows.get(config.marker_key)),
            snapshot.marker,
            restored_fields(snapshot, config),
            config,
        );
        match json_text(Json::Object(merged)) {
            Some(text) => MarkerUpdateView::Write(text),
            None => MarkerUpdateView::Fail,
        }
    } else {
        MarkerUpdateView::Keep
    }
}

/// The rows of a store after a restore in which no command fails.
pub open spec fn restored_rows(rows: Map<Seq<char>, Seq<char>>, snapshot: SnapshotView, config: FieldConfigView) -> Map<Seq<char>, Seq<char>> {
    let written = written_rows(rows, snapshot, config);
    let marked = match restored_marker(rows, snapshot, config) {
        MarkerUpdateView::Write(text) => written.insert(config.marker_key, text),
        _ => written,
    };
    marked.insert(config.timestamp_key, timestamp_reset_value())
}

/// The steps that a restore passes over when no command fails: none, but
/// for a marker that has no text.
pub open spec fn restored_skips(rows: Map<Seq<char>, Seq<char>>, snapshot: SnapshotView, config: FieldConfigView) -> Seq<SkippedView> {
    match restored_marker(rows, snapshot, config) {
        MarkerUpdateView::Fail => seq![SkippedView { step: Step::RenderMarker, key: config.marker_key, cause: render_cause() }],
        _ => Seq::empty(),
    }
}

/// Whether a report on a restore says what a restore without failure does
/// to these rows.
pub open spec fn reports_restore(
    report: RestoreReport,
    rows: Map<Seq<char>, Seq<char>>,
    snapshot: SnapshotView,
    config: FieldConfigView,
) -> bool {
    &&& report.restored == restore_plan(snapshot, config).len()
    &&& entry_views(report.entries@) == plan_entries(restore_plan(snapshot, config))
    &&& report.marker_updated == (restored_marker(rows, snapshot, config) is Write)
    &&& report.timestamp_reset
    &&& skipped_views(report.skipped@) == restored_skips(rows, snapshot, config)
}

/// The rows of a store after the writes of a plan, one after the other.
spec fn rows_with(rows: Map<Seq<char>, Seq<char>>, plan: Seq<FieldWriteView>) -> Map<Seq<char>, Seq<char>>
    decreases plan.len(),
{
    if plan.len() == 0 {
        rows
    } else {
        rows_with(rows, plan.drop_last()).insert(plan.last().key, plan.last().value)
    }
}

/// Whether the snapshot holds a string for one of the listed fields that
/// has the key `key`.
spec fn restores_among(snapshot: SnapshotView, fields: Seq<ManagedFieldView>, key: Seq<char>) -> bool {
    snapshot.field_value(key) is Some && exists|i: int| 0 <= i < fields.len() && #[trigger] fields[i].name == key
}

proof fn lemma_restores_among_push(snapshot: SnapshotView, fields: Seq<ManagedFieldView>, key: Seq<char>)
    requires
        fields.len() > 0,
    ensures
        restores_among(snapshot, fields, key) == (restores_among(snapshot, fields.drop_last(), key) || (fields.last().name
            == key && snapshot.field_value(key) is Some)),
{
    let shorter = fields.drop_last();
    if restores_among(snapshot, fields, key) {
        let i = choose|i: int| 0 <= i < fields.len() && #[trigger] fields[i].name == key;
        if i < shorter.len() {
            assert(shorter[i].name == key);
        }
    }
    if restores_among(snapshot, shorter, key) {
        let i = choose|i: int| 0 <= i < shorter.len() && #[trigger] shorter[i].name == key;
        assert(fields[i].name == key);
    }
    if fields.last().name == key {
        assert(fields[fields.len() - 1].name == key);
    }
}

/// The keys of a plan are the fields for which the snapshot holds a string.
proof fn lemma_plan_keys(snapshot: SnapshotView, config: FieldConfigView, fields: Seq<ManagedFieldView>, key: Seq<char>)
    ensures
        planned_writes(snapshot, config, fields).map_values(|w: FieldWriteView| w.key).contains(key) == restores_among(
            snapshot,
            fields,
            key,
        ),
    decreases fields.len(),
{
    let plan = planned_writes(snapshot, config, fields);
    let keys = plan.map_values(|w: FieldWriteView| w.key);
    if fields.len() > 0 {
        let shorter = fields.drop_last();
        let before_keys = planned_writes(snapshot, config, shorter).map_values(|w: FieldWriteView| w.key);
        let name = fields.last().name;
        lemma_plan_keys(snapshot, config, shorter, key);
        lemma_restores_among_push(snapshot, fields, key);
        if snapshot.field_value(name) is Some {
            assert(keys =~= before_keys.push(name));
            if before_keys.contains(key) {
                let i = choose|i: int| 0 <= i < before_keys.len() && before_keys[i] == key;
                assert(keys[i] == key);
            }
            if key == name {
                assert(keys[keys.len() - 1] == key);
            }
            if keys.contains(key) {
                let i = choose|i: int| 0 <= i < keys.len() && keys[i] == key;
                if i < before_keys.len() {
                    assert(before_keys[i] == key);
                }
            }
        }
    }
}

/// The fields that a restore writes are the managed fields for which the
/// snapshot holds a string.
pub proof fn lemma_restored_fields(snapshot: SnapshotView, config: FieldConfigView, key: Seq<char>)
    ensures
        restored_fields(snapshot, config).contains(key) == restores(snapshot, config, key),
{
    lemma_plan_keys(snapshot, config, config.fields, key);
}

/// The row of `key` after the writes of a plan.
proof fn lemma_plan_rows(
    snapshot: SnapshotView,
    config: FieldConfigView,
    fields: Seq<ManagedFieldView>,
    rows: Map<Seq<char>, Seq<char>>,
    key: Seq<char>,
)
    ensures
        rows_with(rows, planned_writes(snapshot, config, fields)).get(key) == if restores_among(snapshot, fields, key) {
            snapshot.field_value(key)
        } else {
            rows.get(key)
        },
    decreases fields.len(),
{
    if fields.len() > 0 {
        lemma_plan_rows(snapshot, config, fields.drop_last(), rows, key);
        lemma_restores_among_push(snapshot, fields, key);
        let before = planned_writes(snapshot, config, fields.drop_last());
        match snapshot.field_value(fields.last().name) {
            Some(value) => {
                let plan = planned_writes(snapshot, config, fields);
                assert(plan.drop_last() =~= before);
            },
            None => {},
        }
    }
}

/// The entry of `key` in a marker after the entries of a plan.
proof fn lemma_plan_flags(
    snapshot: SnapshotView,
    config: FieldConfigView,
    fields: Seq<ManagedFieldView>,
    current: Map<Seq<char>, Json>,
    key: Seq<char>,
)
    ensures
        with_flags(current, plan_entries(planned_writes(snapshot, config, fields))).get(key) == if restores_among(
            snapshot,
            fields,
            key,
        ) && config.registers(key) {
            Some(Json::Integer(resolved_flag(snapshot.marker, key, config) as int))
        } else {
            current.get(key)
        },
    decreases fields.len(),
{
    if fields.len() > 0 {
        lemma_plan_flags(snapshot, config, fields.drop_last(), current, key);
        lemma_restores_among_push(snapshot, fields, key);
        let before = planned_writes(snapshot, config, fields.drop_last());
        let plan = planned_writes(snapshot, config, fields);
        match snapshot.field_value(fields.last().name) {
            Some(value) => {
                assert(plan.drop_last() =~= before);
                if plan.last().registered {
                    assert(plan_entries(plan).drop_last() =~= plan_entries(before));
                }
            },
            None => {},
        }
    }
}

/// A plan has an entry for the marker exactly if one of its fields is
/// entered.
proof fn lemma_plan_enters(snapshot: SnapshotView, config: FieldConfigView, fields: Seq<ManagedFieldView>)
    ensures
        (plan_entries(planned_writes(snapshot, config, fields)).len() > 0) == (exists|key: Seq<char>|
            restores_among(snapshot, fields, key) && config.registers(key)),
    decreases fields.len(),
{
    if fields.len() > 0 {
        let shorter = fields.drop_last();
        let before = planned_writes(snapshot, config, shorter);
        let plan = planned_writes(snapshot, config, fields);
        let name = fields.last().name;
        lemma_plan_enters(snapshot, config, shorter);
        assert forall|key: Seq<char>|
            restores_among(snapshot, fields, key) == (restores_among(snapshot, shorter, key) || (name == key
                && snapshot.field_value(key) is Some)) by {
            lemma_restores_among_push(snapshot, fields, key);
        }
        if snapshot.field_value(name) is Some {
            assert(plan.drop_last() =~= before);
            if plan.last().registered {
                assert(restores_among(snapshot, fields, name) && config.registers(name));
            }
        }
        if exists|key: Seq<char>| restores_among(snapshot, fields, key) && config.registers(key) {
            let key = choose|key: Seq<char>| restores_among(snapshot, fields, key) && config.registers(key);
            if key != name {
                assert(restores_among(snapshot, shorter, key) && config.registers(key));
            }
        }
        if plan_entries(before).len() > 0 {
            let key = choose|key: Seq<char>| restores_among(snapshot, shorter, key) && config.registers(key);
            assert(restores_among(snapshot, fields, key) && config.registers(key));
        }
    }
}

/// The rows of a store after the writes of a plan and the rewrite of the
/// marker that its entries ask for.
spec fn marked_rows(start: Map<Seq<char>, Seq<char>>, plan: Seq<FieldWriteView>, marker_key: Seq<char>) -> Map<Seq<char>, Seq<char>> {
    let written = rows_with(start, plan);
    if plan_entries(plan).len() > 0 {
        match marker_entry(start.get(marker_key), plan_entries(plan)) {
            MarkerUpdateView::Write(text) => written.insert(marker_key, text),
            _ => written,
        }
    } else {
        written
    }
}

/// Whether the entries of a plan have the marker rewritten.
spec fn plan_marks(start: Map<Seq<char>, Seq<char>>, plan: Seq<FieldWriteView>, marker_key: Seq<char>) -> bool {
    plan_entries(plan).len() > 0 && marker_entry(start.get(marker_key), plan_entries(plan)) is Write
}

/// The steps that are passed over when a plan is run and nothing fails.
spec fn plan_skips(start: Map<Seq<char>, Seq<char>>, plan: Seq<FieldWriteView>, marker_key: Seq<char>) -> Seq<SkippedView> {
    if plan_entries(plan).len() > 0 && marker_entry(start.get(marker_key), plan_entries(plan)) is Fail {
        seq![SkippedView { step: Step::RenderMarker, key: marker_key, cause: render_cause() }]
    } else {
        Seq::empty()
    }
}

/// How a restore that runs on a table in memory stands to the table it
/// started from.
spec fn restore_progress(
    session: RestoreSessionView,
    rows: Map<Seq<char>, Seq<char>>,
    start: Map<Seq<char>, Seq<char>>,
    snapshot: SnapshotView,
    config: FieldConfigView,
) -> bool {
    let plan = restore_plan(snapshot, config);
    let position = session.position as int;
    &&& session.plan == plan
    &&& session.marker_key == config.marker_key
    &&& session.timestamp_key == config.timestamp_key
    &&& session.valid()
    &&& match session.stage {
        RestoreStage::Writing => {
            &&& rows == rows_with(start, plan.take(position))
            &&& session.restored == position
            &&& session.entries == plan_entries(plan.take(position))
            &&& session.skipped == Seq::<SkippedView>::empty()
            &&& !session.marker_updated
            &&& !session.timestamp_reset
        },
        RestoreStage::ReadingMarker => {
            &&& rows == rows_with(start, plan)
            &&& session.restored == plan.len()
            &&& session.entries == plan_entries(plan)
            &&& session.entries.len() > 0
            &&& session.skipped == Seq::<SkippedView>::empty()
            &&& !session.marker_updated
            &&& !session.timestamp_reset
        },
        RestoreStage::WritingMarker => {
            &&& rows == rows_with(start, plan)
            &&& session.restored == plan.len()
            &&& session.entries == plan_entries(plan)
            &&& session.entries.len() > 0
            &&& session.skipped == Seq::<SkippedView>::empty()
            &&& !session.marker_updated
            &&& !session.timestamp_reset
            &&& marker_entry(start.get(config.marker_key), plan_entries(plan)) == MarkerUpdateView::Write(session.pending_marker)
        },
        RestoreStage::ResettingTimestamp => {
            &&& rows == marked_rows(start, plan, config.marker_key)
            &&& session.restored == plan.len()
            &&& session.entries == plan_entries(plan)
            &&& session.skipped == plan_skips(start, plan, config.marker_key)
            &&& session.marker_updated == plan_marks(start, plan, config.marker_key)
            &&& !session.timestamp_reset
        },
        RestoreStage::Finished => {
            &&& rows == marked_rows(start, plan, config.marker_key).insert(config.timestamp_key, timestamp_reset_value())
            &&& session.restored == plan.len()
            &&& session.entries == plan_entries(plan)
            &&& session.skipped == plan_skips(start, plan, config.marker_key)
            &&& session.marker_updated == plan_marks(start, plan, config.marker_key)
            &&& session.timestamp_reset
        },
    }
}

/// One command of a restore, run on a table in memory, keeps the restore
/// in step with the table and brings it nearer to its end.
proof fn lemma_restore_step(
    session: RestoreSessionView,
    rows: Map<Seq<char>, Seq<char>>,
    start: Map<Seq<char>, Seq<char>>,
    snapshot: SnapshotView,
    config: FieldConfigView,
)
    requires
        config.valid(),
        restore_progress(session, rows, start, snapshot, config),
        session.stage != RestoreStage::Finished,
    ensures
        session.pending() is Some,
        restore_progress(
            session.next(reply_to(rows, session.pending()->0)),
            rows_after(rows, session.pending()->0),
            start,
            snapshot,
            config,
        ),
        session.next(reply_to(rows, session.pending()->0)).remaining() < session.remaining(),
{
    let plan = restore_plan(snapshot, config);
    match session.stage {
        RestoreStage::Writing => {
            let p = session.position as int;
            assert(plan.take(p + 1).drop_last() =~= plan.take(p));
            assert(plan.take(p + 1).last() == plan[p]);
            if p + 1 == plan.len() {
                assert(plan.take(p + 1) =~= plan);
            }
        },
        RestoreStage::ReadingMarker => {
            lemma_plan_rows(snapshot, config, config.fields, start, config.marker_key);
            assert(rows.get(config.marker_key) == start.get(config.marker_key));
        },
        _ => {},
    }
}

/// Running the plan of a snapshot comes to what a restore is said to do.
proof fn lemma_plan_restores(start: Map<Seq<char>, Seq<char>>, snapshot: SnapshotView, config: FieldConfigView)
    requires
        config.valid(),
    ensures
        ({
            let plan = restore_plan(snapshot, config);
            &&& marked_rows(start, plan, config.marker_key).insert(config.timestamp_key, timestamp_reset_value())
                == restored_rows(start, snapshot, config)
            &&& plan_marks(start, plan, config.marker_key) == (restored_marker(start, snapshot, config) is Write)
            &&& plan_skips(start, plan, config.marker_key) == restored_skips(start, snapshot, config)
        }),
{
    let plan = restore_plan(snapshot, config);
    let fields = config.fields;
    let current = marker_of_row(start.get(config.marker_key));
    let restored = restored_fields(snapshot, config);
    assert forall|key: Seq<char>| restores_among(snapshot, fields, key) == restores(snapshot, config, key) by {}
    assert forall|key: Seq<char>| entered(restored, config, key) == (restores(snapshot, config, key) && config.registers(key)) by {
        lemma_plan_keys(snapshot, config, fields, key);
    }
    assert(rows_with(start, plan) =~= written_rows(start, snapshot, config)) by {
        assert forall|key: Seq<char>| rows_with(start, plan).get(key) == written_rows(start, snapshot, config).get(key) by {
            lemma_plan_rows(snapshot, config, fields, start, key);
        }
        assert forall|key: Seq<char>| rows_with(start, plan).contains_key(key) == written_rows(start, snapshot, config).contains_key(key) by {
            lemma_plan_rows(snapshot, config, fields, start, key);
        }
        assert forall|key: Seq<char>| rows_with(start, plan).contains_key(key) implies rows_with(start, plan)[key] == written_rows(start, snapshot, config)[key] by {
            lemma_plan_rows(snapshot, config, fields, start, key);
        }
    }
    let merged = merged_marker(current, snapshot.marker, restored, config);
    let entries = plan_entries(plan);
    assert(with_flags(current, entries) =~= merged) by {
        assert forall|key: Seq<char>| with_flags(current, entries).contains_key(key) == merged.contains_key(key) by {
            lemma_plan_flags(snapshot, config, fields, current, key);
        }
        assert forall|key: Seq<char>| with_flags(current, entries).contains_key(key) implies with_flags(current, entries)[key] == merged[key] by {
            lemma_plan_flags(snapshot, config, fields, current, key);
        }
    }
    assert((entries.len() > 0) == enters_any(snapshot, config)) by {
        lemma_plan_enters(snapshot, config, fields);
        if enters_any(snapshot, config) {
            let key = choose|key: Seq<char>| entered(restored, config, key);
            assert(restores_among(snapshot, fields, key) && config.registers(key));
        }
        if entries.len() > 0 {
            let key = choose|key: Seq<char>| restores_among(snapshot, fields, key) && config.registers(key);
            assert(entered(restored, config, key));
        }
    }
}

/// Restores a table in memory from a snapshot: writes the row of each
/// managed field for which the snapshot holds a string, enters the written
/// fields into the marker with the flags that the snapshot recorded, and
/// sets the timestamp to "0".
pub fn restore_database(store: &mut KeyStore, snapshot: &Snapshot, config: &FieldConfig) -> (report: RestoreReport)
    ensures
        final(store)@ == restored_rows(old(store)@, snapshot@, config@),
        reports_restore(report, old(store)@, snapshot@, config@),
{
    config.validity();
    let mut session = RestoreSession::new(snapshot, config);
    session.validity();
    proof {
        let plan = restore_plan(snapshot@, config@);
        assert(plan.take(0) =~= Seq::<FieldWriteView>::empty());
        if plan.len() == 0 {
            assert(marked_rows(store@, plan, config@.marker_key) == store@);
        }
    }
    while !session.is_finished()
        invariant
            config@.valid(),
            restore_progress(session@, store@, old(store)@, snapshot@, config@),
        decreases session@.remaining(),
    {
        proof {
            lemma_restore_step(session@, store@, old(store)@, snapshot@, config@);
        }
        match session.command() {
            Some(command) => {
                let reply = store.apply(&command);
                session = session.advance(reply);
            },
            None => {},
        }
    }
    proof {
        lemma_plan_restores(old(store)@, snapshot@, config@);
    }
    session.report()
}

} // verus!
