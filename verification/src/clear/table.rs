//! A clear of a table in memory, in which no command fails: what it
//! leaves of the table, and the proof that the session does so.

use vstd::prelude::*;
use crate::clear::session::{ClearReport, ClearSession, ClearSessionView, ClearStage};
use crate::config::{lemma_managed_names, FieldConfig, FieldConfigView};
use crate::error::{skipped_views, SkippedView, Step};
use crate::marker::{marker_update, render_cause, MarkerUpdateView};
use crate::store::{reply_to, rows_after, KeyStore};
use crate::text::{lemma_take_contains, without_keys};

verus! {

/// The number of the listed keys that have a row.
pub open spec fn present_count(rows: Map<Seq<char>, Seq<char>>, keys: Seq<Seq<char>>) -> nat
    decreases keys.len(),
{
    if keys.len() == 0 {
        0
    } else {
        present_count(rows, keys.drop_last()) + if rows.contains_key(keys.last()) {
            1nat
        } else {
            0nat
        }
    }
}

/// The rows of a store after a clear in which no command fails: the
/// managed fields have no row, and the marker's row is rewritten where the
/// marker tracked one of them.
pub open spec fn cleared_rows(rows: Map<Seq<char>, Seq<char>>, config: FieldConfigView) -> Map<Seq<char>, Seq<char>> {
    let kept = without_keys(rows, config.names());
    match marker_update(rows.get(config.marker_key), config.names()) {
        MarkerUpdateView::Write(text) => kept.insert(config.marker_key, text),
        _ => kept,
    }
}

/// The steps that a clear passes over when no command fails: none, but for
/// a marker that has no text.
pub open spec fn cleared_skips(rows: Map<Seq<char>, Seq<char>>, config: FieldConfigView) -> Seq<SkippedView> {
    match marker_update(rows.get(config.marker_key), config.names()) {
        MarkerUpdateView::Fail => seq![SkippedView { step: Step::RenderMarker, key: config.marker_key, cause: render_cause() }],
        _ => Seq::empty(),
    }
}

/// Whether a report on a clear says what a clear without failure does to
/// these rows.
pub open spec fn reports_clear(report: ClearReport, rows: Map<Seq<char>, Seq<char>>, config: FieldConfigView) -> bool {
    &&& report.deleted == present_count(rows, config.names())
    &&& report.marker_updated == (marker_update(rows.get(config.marker_key), config.names()) is Write)
    &&& skipped_views(report.skipped@) == cleared_skips(rows, config)
}

/// How a clear that runs on a table in memory stands to the table it
/// started from.
spec fn clear_progress(
    session: ClearSessionView,
    rows: Map<Seq<char>, Seq<char>>,
    start: Map<Seq<char>, Seq<char>>,
    config: FieldConfigView,
) -> bool {
    let names = config.names();
    let update = marker_update(start.get(config.marker_key), names);
    &&& session.names == names
    &&& session.marker_key == config.marker_key
    &&& session.valid()
    &&& match session.stage {
        ClearStage::Deleting => {
            &&& rows == without_keys(start, names.take(session.position as int))
            &&& session.deleted == present_count(start, names.take(session.position as int))
            &&& session.skipped == Seq::<SkippedView>::empty()
            &&& !session.marker_updated
        },
        ClearStage::ReadingMarker => {
            &&& rows == without_keys(start, names)
            &&& session.deleted == present_count(start, names)
            &&& session.skipped == Seq::<SkippedView>::empty()
            &&& !session.marker_updated
        },
        ClearStage::WritingMarker => {
            &&& rows == without_keys(start, names)
            &&& session.deleted == present_count(start, names)
            &&& session.skipped == Seq::<SkippedView>::empty()
            &&& !session.marker_updated
            &&& update == MarkerUpdateView::Write(session.pending_marker)
        },
        ClearStage::Finished => {
            &&& rows == cleared_rows(start, config)
            &&& session.deleted == present_count(start, names)
            &&& session.skipped == cleared_skips(start, config)
            &&& session.marker_updated == (update is Write)
        },
    }
}

/// One command of a clear, run on a table in memory, keeps the clear in
/// step with the table and brings it nearer to its end.
proof fn lemma_clear_step(
    session: ClearSessionView,
    rows: Map<Seq<char>, Seq<char>>,
    start: Map<Seq<char>, Seq<char>>,
    config: FieldConfigView,
)
    requires
        config.valid(),
        clear_progress(session, rows, start, config),
        session.stage != ClearStage::Finished,
    ensures
        session.pending() is Some,
        clear_progress(
            session.next(reply_to(rows, session.pending()->0)),
            rows_after(rows, session.pending()->0),
            start,
            config,
        ),
        session.next(reply_to(rows, session.pending()->0)).remaining() < session.remaining(),
{
    let names = config.names();
    let command = session.pending()->0;
    let reply = reply_to(rows, command);
    let after = rows_after(rows, command);
    let next = session.next(reply);
    lemma_managed_names(config, config.marker_key);
    match session.stage {
        ClearStage::Deleting => {
            let p = session.position as int;
            let key = names[p];
            assert(names.take(p + 1).drop_last() =~= names.take(p));
            assert(names.take(p + 1).last() == key);
            assert forall|k: Seq<char>| names.take(p + 1).contains(k) <==> (names.take(p).contains(k) || k == key) by {
                lemma_take_contains(names, p, k);
            }
            assert(!names.take(p).contains(key)) by {
                if names.take(p).contains(key) {
                    let i = choose|i: int| 0 <= i < names.take(p).len() && names.take(p)[i] == key;
                    assert(config.fields[i].name == config.fields[p].name);
                }
            }
            assert(rows.contains_key(key) == start.contains_key(key));
            assert(after =~= without_keys(start, names.take(p + 1)));
            if p + 1 == names.len() {
                assert(names.take(p + 1) =~= names);
            }
        },
        ClearStage::ReadingMarker => {
            assert(rows.get(config.marker_key) == start.get(config.marker_key));
        },
        ClearStage::WritingMarker => {
        },
        ClearStage::Finished => {
        },
    }
}

/// Clears a table in memory: deletes the row of each managed field, and
/// takes the fields out of the marker.
pub fn clear_database(store: &mut KeyStore, config: &FieldConfig) -> (report: ClearReport)
    ensures
        final(store)@ == cleared_rows(old(store)@, config@),
        reports_clear(report, old(store)@, config@),
{
    config.validity();
    let mut session = ClearSession::new(config);
    session.validity();
    proof {
        assert(config@.names().take(0) =~= Seq::<Seq<char>>::empty());
        assert(store@ =~= without_keys(store@, config@.names().take(0)));
        if config@.fields.len() == 0 {
            assert(config@.names() =~= Seq::<Seq<char>>::empty());
        }
    }
    while !session.is_finished()
        invariant
            config@.valid(),
            clear_progress(session@, store@, old(store)@, config@),
        decreases session@.remaining(),
    {
        proof {
            lemma_clear_step(session@, store@, old(store)@, config@);
        }
        match session.command() {
            Some(command) => {
                let reply = store.apply(&command);
                session = session.advance(reply);
            },
            None => {},
        }
    }
    session.report()
}

} // verus!
