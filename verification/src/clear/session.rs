//! The session of a clear: which command comes next, and what becomes of
//! the clear with each reply.

use vstd::prelude::*;
use crate::config::{FieldConfig, FieldConfigView};
use crate::error::{skipped_views, Skipped, SkippedView, Step};
use crate::marker::{marker_update, remove_keys_from_marker, render_cause, MarkerUpdate, MarkerUpdateView};
use crate::store::{cause_of, failure_cause, CommandView, ReplyView, StoreCommand, StoreReply};
use crate::text::texts;

verus! {

/// Where a clear stands.
#[derive(Debug, Clone, Copy, PartialEq, Eq, Structural)]
pub enum ClearStage {
    /// The row of a managed field is being deleted.
    Deleting,
    /// The row of the marker is being read.
    ReadingMarker,
    /// The row of the marker is being rewritten.
    WritingMarker,
    /// Nothing is left to do.
    Finished,
}

/// A clear of one store as a mathematical value.
pub struct ClearSessionView {
    pub names: Seq<Seq<char>>,
    pub marker_key: Seq<char>,
    pub stage: ClearStage,
    /// The number of managed fields that were dealt with.
    pub position: nat,
    /// The number of rows that went away.
    pub deleted: nat,
    /// The text for the marker's row, while it is being rewritten.
    pub pending_marker: Seq<char>,
    pub marker_updated: bool,
    pub skipped: Seq<SkippedView>,
}

impl ClearSessionView {
    /// The clear of a store with this configuration, before its first
    /// command.
    pub open spec fn start(config: FieldConfigView) -> ClearSessionView {
        ClearSessionView {
            names: config.names(),
            marker_key: config.marker_key,
            stage: if config.fields.len() > 0 {
                ClearStage::Deleting
            } else {
                ClearStage::ReadingMarker
            },
            position: 0,
            deleted: 0,
            pending_marker: Seq::empty(),
            marker_updated: false,
            skipped: Seq::empty(),
        }
    }

    /// What every clear satisfies.
    pub open spec fn valid(self) -> bool {
        &&& self.position <= self.names.len()
        &&& self.deleted <= self.position
        &&& self.stage == ClearStage::Deleting ==> self.position < self.names.len()
    }

    /// The command that the store is to run next, if one is left.
    pub open spec fn pending(self) -> Option<CommandView> {
        match self.stage {
            ClearStage::Deleting => Some(CommandView::Delete { key: self.names[self.position as int] }),
            ClearStage::ReadingMarker => Some(CommandView::Read { key: self.marker_key }),
            ClearStage::WritingMarker => Some(CommandView::Upsert { key: self.marker_key, value: self.pending_marker }),
            ClearStage::Finished => None,
        }
    }

    /// A bound on the number of commands that are left.
    pub open spec fn remaining(self) -> nat {
        match self.stage {
            ClearStage::Deleting => (2 + self.names.len() - self.position) as nat,
            ClearStage::ReadingMarker => 2,
            ClearStage::WritingMarker => 1,
            ClearStage::Finished => 0,
        }
    }

    /// The clear with one more skipped step.
    pub open spec fn skip(self, step: Step, key: Seq<char>, cause: Seq<char>) -> ClearSessionView {
        ClearSessionView { skipped: self.skipped.push(SkippedView { step, key, cause }), ..self }
    }

    /// The clear after the store's reply to the pending command.
    ///
    /// A delete that fails counts as no row deleted. A marker that cannot
    /// be read, rendered or written is left as it is. Each such step is
    /// recorded, and none ends the clear early.
    pub open spec fn next(self, reply: ReplyView) -> ClearSessionView {
        match self.stage {
            ClearStage::Deleting => {
                let recorded = match reply {
                    ReplyView::Deleted { removed } => ClearSessionView {
                        deleted: if removed {
                            self.deleted + 1
                        } else {
                            self.deleted
                        },
                        ..self
                    },
                    _ => self.skip(Step::DeleteField, self.names[self.position as int], failure_cause(reply)),
                };
                ClearSessionView {
                    position: self.position + 1,
                    stage: if self.position + 1 < self.names.len() {
                        ClearStage::Deleting
                    } else {
                        ClearStage::ReadingMarker
                    },
                    ..recorded
                }
            },
            ClearStage::ReadingMarker => match reply {
                ReplyView::Value { value } => match marker_update(value, self.names) {
                    MarkerUpdateView::Keep => ClearSessionView { stage: ClearStage::Finished, ..self },
                    MarkerUpdateView::Write(text) => ClearSessionView {
                        stage: ClearStage::WritingMarker,
                        pending_marker: text,
                        ..self
                    },
                    MarkerUpdateView::Fail => ClearSessionView {
                        stage: ClearStage::Finished,
                        ..self.skip(Step::RenderMarker, self.marker_key, render_cause())
                    },
                },
                _ => ClearSessionView {
                    stage: ClearStage::Finished,
                    ..self.skip(Step::ReadMarker, self.marker_key, failure_cause(reply))
                },
            },
            ClearStage::WritingMarker => match reply {
                ReplyView::Stored => ClearSessionView { stage: ClearStage::Finished, marker_updated: true, ..self },
                _ => ClearSessionView {
                    stage: ClearStage::Finished,
                    ..self.skip(Step::WriteMarker, self.marker_key, failure_cause(reply))
                },
            },
            ClearStage::Finished => self,
        }
    }
}

/// Whatever the store replies, a clear that is not finished comes nearer
/// to its end with the reply, and stays a clear.
pub proof fn law_clear_advances(session: ClearSessionView, reply: ReplyView)
    requires
        session.valid(),
        session.stage != ClearStage::Finished,
    ensures
        session.pending() is Some,
        session.next(reply).valid(),
        session.next(reply).remaining() < session.remaining(),
        session.next(reply).names == session.names,
        session.next(reply).marker_key == session.marker_key,
{
}

/// What a clear did to one store.
#[derive(Debug, Clone, PartialEq, Eq)]
pub struct ClearReport {
    /// The number of managed fields whose row went away.
    pub deleted: usize,
    /// Whether the row of the marker was rewritten.
    pub marker_updated: bool,
    /// The steps that failed and were passed over.
    pub skipped: Vec<Skipped>,
}

/// A clear of one store: it names the commands, one after the other, and
/// takes the store's reply to each.
#[derive(Debug)]
pub struct ClearSession {
    names: Vec<String>,
    marker_key: String,
    stage: ClearStage,
    position: usize,
    deleted: usize,
    pending_marker: String,
    marker_updated: bool,
    skipped: Vec<Skipped>,
}

impl View for ClearSession {
    type V = ClearSessionView;

    closed spec fn view(&self) -> ClearSessionView {
        ClearSessionView {
            names: texts(self.names@),
            marker_key: self.marker_key@,
            stage: self.stage,
            position: self.position as nat,
            deleted: self.deleted as nat,
            pending_marker: self.pending_marker@,
            marker_updated: self.marker_updated,
            skipped: skipped_views(self.skipped@),
        }
    }
}

impl ClearSession {
    #[verifier::type_invariant]
    spec fn well_formed(self) -> bool {
        self@.valid()
    }

    /// The clear of a store with this configuration.
    pub fn new(config: &FieldConfig) -> (session: ClearSession)
        ensures
            session@ == ClearSessionView::start(config@),
            session@.valid(),
    {
        let names = config.names();
        let stage = if names.len() > 0 {
            ClearStage::Deleting
        } else {
            ClearStage::ReadingMarker
        };
        let session = ClearSession {
            names,
            marker_key: config.marker_key().to_owned(),
            stage,
            position: 0,
            deleted: 0,
            pending_marker: String::new(),
            marker_updated: false,
            skipped: Vec::new(),
        };
        assert(session@.skipped =~= Seq::empty());
        session
    }

    /// States what every clear satisfies.
    pub(crate) fn validity(&self)
        ensures
            self@.valid(),
    {
        proof {
            use_type_invariant(self);
        }
    }

    /// The command that the store is to run next; `None` when the clear is
    /// finished.
    pub fn command(&self) -> (command: Option<StoreCommand>)
        ensures
            match command {
                Some(c) => self@.pending() == Some(c@),
                None => self@.pending() is None,
            },
    {
        proof {
            use_type_invariant(self);
        }
        match self.stage {
            ClearStage::Deleting => Some(StoreCommand::Delete { key: self.names[self.position].clone() }),
            ClearStage::ReadingMarker => Some(StoreCommand::Read { key: self.marker_key.clone() }),
            ClearStage::WritingMarker => Some(
                StoreCommand::Upsert { key: self.marker_key.clone(), value: self.pending_marker.clone() },
            ),
            ClearStage::Finished => None,
        }
    }

    /// Whether nothing is left to do.
    pub fn is_finished(&self) -> (finished: bool)
        ensures
            finished == (self@.stage == ClearStage::Finished),
    {
        self.stage == ClearStage::Finished
    }

    /// The clear with one more skipped step.
    fn skip(self, step: Step, key: String, cause: String) -> (next: ClearSession)
        ensures
            next@ == self@.skip(step, key@, cause@),
    {
        proof {
            use_type_invariant(&self);
        }
        let mut skipped = self.skipped;
        skipped.push(Skipped { step, key, cause });
        let next = ClearSession { skipped, ..self };
        assert(next@.skipped =~= self@.skip(step, key@, cause@).skipped);
        next
    }

    /// The clear at its end.
    fn finish(self) -> (next: ClearSession)
        ensures
            next@ == (ClearSessionView { stage: ClearStage::Finished, ..self@ }),
    {
        proof {
            use_type_invariant(&self);
        }
        ClearSession { stage: ClearStage::Finished, ..self }
    }

    /// Takes the store's reply to the pending command.
    pub fn advance(self, reply: StoreReply) -> (next: ClearSession)
        ensures
            next@ == self@.next(reply@),
            next@.valid(),
    {
        proof {
            use_type_invariant(&self);
        }
        match self.stage {
            ClearStage::Deleting => {
                assert(self.position < self.names.len());
                let position = self.position + 1;
                let stage = if position < self.names.len() {
                    ClearStage::Deleting
                } else {
                    ClearStage::ReadingMarker
                };
                match reply {
                    StoreReply::Deleted { removed } => {
                        let deleted = if removed {
                            self.deleted + 1
                        } else {
                            self.deleted
                        };
                        ClearSession { stage, position, deleted, ..self }
                    },
                    other => {
                        let key = self.names[self.position].clone();
                        let recorded = self.skip(Step::DeleteField, key, cause_of(other));
                        ClearSession { stage, position, ..recorded }
                    },
                }
            },
            ClearStage::ReadingMarker => match reply {
                StoreReply::Value { value } => {
                    let current = match &value {
                        Some(text) => Some(text.as_str()),
                        None => None,
                    };
                    match remove_keys_from_marker(current, &self.names) {
                        MarkerUpdate::Keep => self.finish(),
                        MarkerUpdate::Write(text) => ClearSession {
                            stage: ClearStage::WritingMarker,
                            pending_marker: text,
                            ..self
                        },
                        MarkerUpdate::Fail => {
                            let key = self.marker_key.clone();
                            self.skip(Step::RenderMarker, key, "marker not rendered".to_owned()).finish()
                        },
                    }
                },
                other => {
                    let key = self.marker_key.clone();
                    self.skip(Step::ReadMarker, key, cause_of(other)).finish()
                },
            },
            ClearStage::WritingMarker => match reply {
                StoreReply::Stored => ClearSession { stage: ClearStage::Finished, marker_updated: true, ..self },
                other => {
                    let key = self.marker_key.clone();
                    self.skip(Step::WriteMarker, key, cause_of(other)).finish()
                },
            },
            ClearStage::Finished => self,
        }
    }

    /// What the clear did so far.
    pub fn report(self) -> (report: ClearReport)
        ensures
            report.deleted == self@.deleted,
            report.marker_updated == self@.marker_updated,
            skipped_views(report.skipped@) == self@.skipped,
    {
        ClearReport { deleted: self.deleted, marker_updated: self.marker_updated, skipped: self.skipped }
    }
}

} // verus!
