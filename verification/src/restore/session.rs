//! The session of a restore: the writes that a snapshot asks for, which
//! command comes next, and what becomes of the restore with each reply.

use vstd::prelude::*;
use crate::config::{FieldConfig, FieldConfigView, ManagedFieldView};
use crate::error::{skipped_views, Skipped, SkippedView, Step};
use crate::marker::{
    enter_flags_into_marker, entry_views, get_marker_flag_from_backup, marker_entry, render_cause,
    resolved_flag, FlagEntry, FlagEntryView, MarkerUpdate, MarkerUpdateView,
};
use crate::snapshot::{Snapshot, SnapshotView};
use crate::store::{cause_of, failure_cause, CommandView, ReplyView, StoreCommand, StoreReply};
use crate::text::slice_view;

verus! {

/// One row that a restore writes: a managed field with the value that the
/// snapshot holds for it, the flag it gets in the marker, and whether it is
/// entered there.
#[derive(Debug, Clone, PartialEq, Eq)]
pub struct FieldWrite {
    pub key: String,
    pub value: String,
    pub flag: i64,
    pub registered: bool,
}

/// A planned write as a mathematical value.
pub struct FieldWriteView {
    pub key: Seq<char>,
    pub value: Seq<char>,
    pub flag: i64,
    pub registered: bool,
}

impl View for FieldWrite {
    type V = FieldWriteView;

    open spec fn view(&self) -> FieldWriteView {
        FieldWriteView { key: self.key@, value: self.value@, flag: self.flag, registered: self.registered }
    }
}

/// The planned writes of a list.
pub open spec fn write_views(plan: Seq<FieldWrite>) -> Seq<FieldWriteView> {
    plan.map_values(|w: FieldWrite| w@)
}

/// The writes that a snapshot asks for among the listed fields, in their
/// order: one for each field for which the snapshot holds a string.
pub open spec fn planned_writes(snapshot: SnapshotView, config: FieldConfigView, fields: Seq<ManagedFieldView>) -> Seq<FieldWriteView>
    decreases fields.len(),
{
    if fields.len() == 0 {
        Seq::empty()
    } else {
        let before = planned_writes(snapshot, config, fields.drop_last());
        let key = fields.last().name;
        match snapshot.field_value(key) {
            Some(value) => before.push(
                FieldWriteView {
                    key,
                    value,
                    flag: resolved_flag(snapshot.marker, key, config),
                    registered: config.registers(key),
                },
            ),
            None => before,
        }
    }
}

/// The writes that a snapshot asks for among the managed fields.
pub open spec fn restore_plan(snapshot: SnapshotView, config: FieldConfigView) -> Seq<FieldWriteView> {
    planned_writes(snapshot, config, config.fields)
}

/// The value that a restore writes to the row of the timestamp.
pub open spec fn timestamp_reset_value() -> Seq<char> {
    "0"@
}

/// Where a restore stands.
#[derive(Debug, Clone, Copy, PartialEq, Eq, Structural)]
pub enum RestoreStage {
    /// The row of a managed field is being written.
    Writing,
    /// The row of the marker is being read.
    ReadingMarker,
    /// The row of the marker is being rewritten.
    WritingMarker,
    /// The row of the timestamp is being set to "0".
    ResettingTimestamp,
    /// Nothing is left to do.
    Finished,
}

/// A restore of one store as a mathematical value.
pub struct RestoreSessionView {
    pub plan: Seq<FieldWriteView>,
    pub marker_key: Seq<char>,
    pub timestamp_key: Seq<char>,
    pub stage: RestoreStage,
    /// The number of planned writes that were dealt with.
    pub position: nat,
    /// The number of rows that were written.
    pub restored: nat,
    /// The written fields that are entered into the marker.
    pub entries: Seq<FlagEntryView>,
    /// The text for the marker's row, while it is being rewritten.
    pub pending_marker: Seq<char>,
    pub marker_updated: bool,
    pub timestamp_reset: bool,
    pub skipped: Seq<SkippedView>,
}

impl RestoreSessionView {
    /// The restore of a store from a snapshot, before its first command.
    pub open spec fn start(snapshot: SnapshotView, config: FieldConfigView) -> RestoreSessionView {
        let plan = restore_plan(snapshot, config);
        RestoreSessionView {
            plan,
            marker_key: config.marker_key,
            timestamp_key: config.timestamp_key,
            stage: if plan.len() > 0 {
                RestoreStage::Writing
            } else {
                RestoreStage::ResettingTimestamp
            },
            position: 0,
            restored: 0,
            entries: Seq::empty(),
            pending_marker: Seq::empty(),
            marker_updated: false,
            timestamp_reset: false,
            skipped: Seq::empty(),
        }
    }

    /// What every restore satisfies.
    pub open spec fn valid(self) -> bool {
        &&& self.position <= self.plan.len()
        &&& self.restored <= self.position
        &&& self.stage == RestoreStage::Writing ==> self.position < self.plan.len()
    }

    /// The command that the store is to run next, if one is left.
    pub open spec fn pending(self) -> Option<CommandView> {
        match self.stage {
            RestoreStage::Writing => Some(
                CommandView::Upsert { key: self.plan[self.position as int].key, value: self.plan[self.position as int].value },
            ),
            RestoreStage::ReadingMarker => Some(CommandView::Read { key: self.marker_key }),
            RestoreStage::WritingMarker => Some(CommandView::Upsert { key: self.marker_key, value: self.pending_marker }),
            RestoreStage::ResettingTimestamp => Some(
                CommandView::Upsert { key: self.timestamp_key, value: timestamp_reset_value() },
            ),
            RestoreStage::Finished => None,
        }
    }

    /// A bound on the number of commands that are left.
    pub open spec fn remaining(self) -> nat {
        match self.stage {
            RestoreStage::Writing => (3 + self.plan.len() - self.position) as nat,
            RestoreStage::ReadingMarker => 3,
            RestoreStage::WritingMarker => 2,
            RestoreStage::ResettingTimestamp => 1,
            RestoreStage::Finished => 0,
        }
    }

    /// The restore with one more skipped step.
    pub open spec fn skip(self, step: Step, key: Seq<char>, cause: Seq<char>) -> RestoreSessionView {
        RestoreSessionView { skipped: self.skipped.push(SkippedView { step, key, cause }), ..self }
    }

    /// The restore after the marker's row was read, or could not be read:
    /// the written fields are entered into the marker that the row holds.
    pub open spec fn enter(self, current: Option<Seq<char>>) -> RestoreSessionView {
        match marker_entry(current, self.entries) {
            MarkerUpdateView::Write(text) => RestoreSessionView {
                stage: RestoreStage::WritingMarker,
                pending_marker: text,
                ..self
            },
            _ => RestoreSessionView {
                stage: RestoreStage::ResettingTimestamp,
                ..self.skip(Step::RenderMarker, self.marker_key, render_cause())
            },
        }
    }

    /// The restore after the store's reply to the pending command.
    ///
    /// A field whose write fails is passed over, and is not entered into
    /// the marker. The marker is rewritten only where a written field is
    /// entered; a row that cannot be read counts as a marker without
    /// entries. The timestamp is reset whatever came before. Each failed
    /// step is recorded, and none ends the restore early.
    pub open spec fn next(self, reply: ReplyView) -> RestoreSessionView {
        match self.stage {
            RestoreStage::Writing => {
                let write = self.plan[self.position as int];
                let recorded = match reply {
                    ReplyView::Stored => RestoreSessionView {
                        restored: self.restored + 1,
                        entries: if write.registered {
                            self.entries.push(FlagEntryView { key: write.key, flag: write.flag })
                        } else {
                            self.entries
                        },
                        ..self
                    },
                    _ => self.skip(Step::WriteField, write.key, failure_cause(reply)),
                };
                RestoreSessionView {
                    position: self.position + 1,
                    stage: if self.position + 1 < self.plan.len() {
                        RestoreStage::Writing
                    } else if recorded.entries.len() > 0 {
                        RestoreStage::ReadingMarker
                    } else {
                        RestoreStage::ResettingTimestamp
                    },
                    ..recorded
                }
            },
            RestoreStage::ReadingMarker => match reply {
                ReplyView::Value { value } => self.enter(value),
                _ => self.skip(Step::ReadMarker, self.marker_key, failure_cause(reply)).enter(None),
            },
            RestoreStage::WritingMarker => match reply {
                ReplyView::Stored => RestoreSessionView {
                    stage: RestoreStage::ResettingTimestamp,
                    marker_updated: true,
                    ..self
                },
                _ => RestoreSessionView {
                    stage: RestoreStage::ResettingTimestamp,
                    ..self.skip(Step::WriteMarker, self.marker_key, failure_cause(reply))
                },
            },
            RestoreStage::ResettingTimestamp => match reply {
                ReplyView::Stored => RestoreSessionView { stage: RestoreStage::Finished, timestamp_reset: true, ..self },
                _ => RestoreSessionView {
                    stage: RestoreStage::Finished,
                    ..self.skip(Step::ResetTimestamp, self.timestamp_key, failure_cause(reply))
                },
            },
            RestoreStage::Finished => self,
        }
    }
}

/// Whatever the store replies, a restore that is not finished comes
/// nearer to its end with the reply, and stays a restore with the same
/// plan.
pub proof fn law_restore_advances(session: RestoreSessionView, reply: ReplyView)
    requires
        session.valid(),
        session.stage != RestoreStage::Finished,
    ensures
        session.pending() is Some,
        session.next(reply).valid(),
        session.next(reply).remaining() < session.remaining(),
        session.next(reply).plan == session.plan,
{
}

/// Whatever the store replies, a restore enters into the marker only
/// fields that were written: a field whose write failed is not among the
/// entries, and the entries that there were stay.
pub proof fn law_restore_enters_written(session: RestoreSessionView, reply: ReplyView)
    requires
        session.valid(),
    ensures
        ({
            let next = session.next(reply);
            let write = session.plan[session.position as int];
            if session.stage == RestoreStage::Writing && reply == ReplyView::Stored && write.registered {
                next.entries == session.entries.push(FlagEntryView { key: write.key, flag: write.flag })
            } else {
                next.entries == session.entries
            }
        }),
{
}

/// What a restore did to one store.
#[derive(Debug, Clone, PartialEq, Eq)]
pub struct RestoreReport {
    /// The number of managed fields whose row was written.
    pub restored: usize,
    /// The written fields that were to be entered into the marker, with
    /// their flags.
    pub entries: Vec<FlagEntry>,
    /// Whether the row of the marker was rewritten.
    pub marker_updated: bool,
    /// Whether the row of the timestamp was set to "0".
    pub timestamp_reset: bool,
    /// The steps that failed and were passed over.
    pub skipped: Vec<Skipped>,
}

/// A restore of one store: it names the commands, one after the other, and
/// takes the store's reply to each.
#[derive(Debug)]
pub struct RestoreSession {
    plan: Vec<FieldWrite>,
    marker_key: String,
    timestamp_key: String,
    stage: RestoreStage,
    position: usize,
    restored: usize,
    entries: Vec<FlagEntry>,
    pending_marker: String,
    marker_updated: bool,
    timestamp_reset: bool,
    skipped: Vec<Skipped>,
}

impl View for RestoreSession {
    type V = RestoreSessionView;

    closed spec fn view(&self) -> RestoreSessionView {
        RestoreSessionView {
            plan: write_views(self.plan@),
            marker_key: self.marker_key@,
            timestamp_key: self.timestamp_key@,
            stage: self.stage,
            position: self.position as nat,
            restored: self.restored as nat,
            entries: entry_views(self.entries@),
            pending_marker: self.pending_marker@,
            marker_updated: self.marker_updated,
            timestamp_reset: self.timestamp_reset,
            skipped: skipped_views(self.skipped@),
        }
    }
}

/// The writes that a snapshot asks for among the managed fields, in the
/// order of the configuration.
pub fn plan_restore(snapshot: &Snapshot, config: &FieldConfig) -> (plan: Vec<FieldWrite>)
    ensures
        write_views(plan@) == restore_plan(snapshot@, config@),
{
    let mut plan: Vec<FieldWrite> = Vec::new();
    let mut i: usize = 0;
    assert(config@.fields.take(0) =~= Seq::<ManagedFieldView>::empty());
    assert(write_views(plan@) =~= planned_writes(snapshot@, config@, config@.fields.take(0)));
    while i < config.len()
        invariant
            i <= config@.fields.len(),
            write_views(plan@) == planned_writes(snapshot@, config@, config@.fields.take(i as int)),
        decreases config@.fields.len() - i,
    {
        let key = config.field_name(i);
        assert(config@.fields.take(i + 1).drop_last() =~= config@.fields.take(i as int));
        match snapshot.field_value(key) {
            Some(value) => {
                let flag = get_marker_flag_from_backup(snapshot.marker(), key, config);
                let write = FieldWrite { key: key.to_owned(), value, flag, registered: config.registers(key) };
                let ghost before = write_views(plan@);
                plan.push(write);
                assert(write_views(plan@) =~= before.push(write@));
            },
            None => {},
        }
        i += 1;
    }
    assert(config@.fields.take(i as int) =~= config@.fields);
    plan
}

impl RestoreSession {
    #[verifier::type_invariant]
    spec fn well_formed(self) -> bool {
        self@.valid()
    }

    /// The restore of a store from a snapshot.
    pub fn new(snapshot: &Snapshot, config: &FieldConfig) -> (session: RestoreSession)
        ensures
            session@ == RestoreSessionView::start(snapshot@, config@),
            session@.valid(),
    {
        let plan = plan_restore(snapshot, config);
        let stage = if plan.len() > 0 {
            RestoreStage::Writing
        } else {
            RestoreStage::ResettingTimestamp
        };
        let session = RestoreSession {
            plan,
            marker_key: config.marker_key().to_owned(),
            timestamp_key: config.timestamp_key().to_owned(),
            stage,
            position: 0,
            restored: 0,
            entries: Vec::new(),
            pending_marker: String::new(),
            marker_updated: false,
            timestamp_reset: false,
            skipped: Vec::new(),
        };
        assert(session@.skipped =~= Seq::empty());
        assert(session@.entries =~= Seq::empty());
        session
    }

    /// States what every restore satisfies.
    pub(crate) fn validity(&self)
        ensures
            self@.valid(),
    {
        proof {
            use_type_invariant(self);
        }
    }

    /// The command that the store is to run next; `None` when the restore
    /// is finished.
    pub fn command(&self) -> (command: Option<StoreCommand>)
        ensures
            match command {
                Some(c) => self@.pending() == Some(c@),
                None => self@.pending() is None,
            },
    {
        proof {
            use_type_invariant(self);
        }
        match self.stage {
            RestoreStage::Writing => Some(
                StoreCommand::Upsert { key: self.plan[self.position].key.clone(), value: self.plan[self.position].value.clone() },
            ),
            RestoreStage::ReadingMarker => Some(StoreCommand::Read { key: self.marker_key.clone() }),
            RestoreStage::WritingMarker => Some(
                StoreCommand::Upsert { key: self.marker_key.clone(), value: self.pending_marker.clone() },
            ),
            RestoreStage::ResettingTimestamp => Some(
                StoreCommand::Upsert { key: self.timestamp_key.clone(), value: "0".to_owned() },
            ),
            RestoreStage::Finished => None,
        }
    }

    /// Whether nothing is left to do.
    pub fn is_finished(&self) -> (finished: bool)
        ensures
            finished == (self@.stage == RestoreStage::Finished),
    {
        self.stage == RestoreStage::Finished
    }

    /// The restore with one more skipped step.
    fn skip(self, step: Step, key: String, cause: String) -> (next: RestoreSession)
        ensures
            next@ == self@.skip(step, key@, cause@),
    {
        proof {
            use_type_invariant(&self);
        }
        let mut skipped = self.skipped;
        skipped.push(Skipped { step, key, cause });
        let next = RestoreSession { skipped, ..self };
        assert(next@.skipped =~= self@.skip(step, key@, cause@).skipped);
        next
    }

    /// The restore at a stage that follows the writing of the fields.
    fn at(self, stage: RestoreStage) -> (next: RestoreSession)
        requires
            stage != RestoreStage::Writing,
        ensures
            next@ == (RestoreSessionView { stage, ..self@ }),
    {
        proof {
            use_type_invariant(&self);
        }
        RestoreSession { stage, ..self }
    }

    /// Enters the written fields into the marker whose row has the text
    /// `current`.
    fn enter(self, current: Option<&str>) -> (next: RestoreSession)
        ensures
            next@ == self@.enter(slice_view(current)),
    {
        proof {
            use_type_invariant(&self);
        }
        match enter_flags_into_marker(current, &self.entries) {
            MarkerUpdate::Write(text) => RestoreSession { stage: RestoreStage::WritingMarker, pending_marker: text, ..self },
            _ => {
                let key = self.marker_key.clone();
                self.skip(Step::RenderMarker, key, "marker not rendered".to_owned()).at(RestoreStage::ResettingTimestamp)
            },
        }
    }

    /// Takes the store's reply to the pending command.
    pub fn advance(self, reply: StoreReply) -> (next: RestoreSession)
        ensures
            next@ == self@.next(reply@),
            next@.valid(),
    {
        proof {
            use_type_invariant(&self);
        }
        match self.stage {
            RestoreStage::Writing => {
                assert(self.position < self.plan.len());
                let position = self.position + 1;
                match reply {
                    StoreReply::Stored => {
                        let restored = self.restored + 1;
                        let mut entries = self.entries;
                        if self.plan[self.position].registered {
                            entries.push(
                                FlagEntry { key: self.plan[self.position].key.clone(), flag: self.plan[self.position].flag },
                            );
                        }
                        let stage = if position < self.plan.len() {
                            RestoreStage::Writing
                        } else if entries.len() > 0 {
                            RestoreStage::ReadingMarker
                        } else {
                            RestoreStage::ResettingTimestamp
                        };
                        let next = RestoreSession { stage, position, restored, entries, ..self };
                        assert(next@.entries =~= self@.next(reply@).entries);
                        next
                    },
                    other => {
                        let key = self.plan[self.position].key.clone();
                        let recorded = self.skip(Step::WriteField, key, cause_of(other));
                        let stage = if position < recorded.plan.len() {
                            RestoreStage::Writing
                        } else if recorded.entries.len() > 0 {
                            RestoreStage::ReadingMarker
                        } else {
                            RestoreStage::ResettingTimestamp
                        };
                        RestoreSession { stage, position, ..recorded }
                    },
                }
            },
            RestoreStage::ReadingMarker => match reply {
                StoreReply::Value { value } => {
                    let current = match &value {
                        Some(text) => Some(text.as_str()),
                        None => None,
                    };
                    self.enter(current)
                },
                other => {
                    let key = self.marker_key.clone();
                    self.skip(Step::ReadMarker, key, cause_of(other)).enter(None)
                },
            },
            RestoreStage::WritingMarker => match reply {
                StoreReply::Stored => RestoreSession { stage: RestoreStage::ResettingTimestamp, marker_updated: true, ..self },
                other => {
                    let key = self.marker_key.clone();
                    self.skip(Step::WriteMarker, key, cause_of(other)).at(RestoreStage::ResettingTimestamp)
                },
            },
            RestoreStage::ResettingTimestamp => match reply {
                StoreReply::Stored => RestoreSession { stage: RestoreStage::Finished, timestamp_reset: true, ..self },
                other => {
                    let key = self.timestamp_key.clone();
                    self.skip(Step::ResetTimestamp, key, cause_of(other)).at(RestoreStage::Finished)
                },
            },
            RestoreStage::Finished => self,
        }
    }

    /// What the restore did so far.
    pub fn report(self) -> (report: RestoreReport)
        ensures
            report.restored == self@.restored,
            entry_views(report.entries@) == self@.entries,
            report.marker_updated == self@.marker_updated,
            report.timestamp_reset == self@.timestamp_reset,
            skipped_views(report.skipped@) == self@.skipped,
    {
        RestoreReport {
            restored: self.restored,
            entries: self.entries,
            marker_updated: self.marker_updated,
            timestamp_reset: self.timestamp_reset,
            skipped: self.skipped,
        }
    }
}

/// The written fields of a plan that are entered into the marker, with
/// their flags.
pub open spec fn plan_entries(plan: Seq<FieldWriteView>) -> Seq<FlagEntryView>
    decreases plan.len(),
{
    if plan.len() == 0 {
        Seq::empty()
    } else if plan.last().registered {
        plan_entries(plan.drop_last()).push(FlagEntryView { key: plan.last().key, flag: plan.last().flag })
    } else {
        plan_entries(plan.drop_last())
    }
}

} // verus!
