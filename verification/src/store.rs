//! The table of a store: rows of a key and a value, one row for a key.
//!
//! A store is spoken to in commands, each of which commits by itself. The
//! library decides which command comes next; whoever holds the store runs
//! it and hands back the reply. `KeyStore` is a table in memory that does
//! so.

use vstd::prelude::*;
use crate::text::{same_text, text_view};

verus! {

/// A request to a store.
#[derive(Debug, Clone, PartialEq, Eq)]
pub enum StoreCommand {
    /// Delete the row of `key`, if there is one.
    Delete { key: String },
    /// Read the value of `key`.
    Read { key: String },
    /// Insert the row, in place of the one that `key` had.
    Upsert { key: String, value: String },
}

/// What a store answers.
#[derive(Debug, Clone, PartialEq, Eq)]
pub enum StoreReply {
    /// The delete was committed; `removed` says whether a row went away.
    Deleted { removed: bool },
    /// The read succeeded; `value` is `None` where the key has no row.
    Value { value: Option<String> },
    /// The upsert was committed.
    Stored,
    /// The request failed, and the store is as it was.
    Failed { cause: String },
}

/// A command as a mathematical value.
pub enum CommandView {
    Delete { key: Seq<char> },
    Read { key: Seq<char> },
    Upsert { key: Seq<char>, value: Seq<char> },
}

/// A reply as a mathematical value.
pub enum ReplyView {
    Deleted { removed: bool },
    Value { value: Option<Seq<char>> },
    Stored,
    Failed { cause: Seq<char> },
}

impl View for StoreCommand {
    type V = CommandView;

    open spec fn view(&self) -> CommandView {
        match self {
            StoreCommand::Delete { key } => CommandView::Delete { key: key@ },
            StoreCommand::Read { key } => CommandView::Read { key: key@ },
            StoreCommand::Upsert { key, value } => CommandView::Upsert { key: key@, value: value@ },
        }
    }
}

impl View for StoreReply {
    type V = ReplyView;

    open spec fn view(&self) -> ReplyView {
        match self {
            StoreReply::Deleted { removed } => ReplyView::Deleted { removed: *removed },
            StoreReply::Value { value } => ReplyView::Value { value: text_view(*value) },
            StoreReply::Stored => ReplyView::Stored,
            StoreReply::Failed { cause } => ReplyView::Failed { cause: cause@ },
        }
    }
}

/// The rows of a store after a command that succeeds.
pub open spec fn rows_after(rows: Map<Seq<char>, Seq<char>>, command: CommandView) -> Map<Seq<char>, Seq<char>> {
    match command {
        CommandView::Delete { key } => rows.remove(key),
        CommandView::Read { key } => rows,
        CommandView::Upsert { key, value } => rows.insert(key, value),
    }
}

/// The reply of a store to a command that succeeds.
pub open spec fn reply_to(rows: Map<Seq<char>, Seq<char>>, command: CommandView) -> ReplyView {
    match command {
        CommandView::Delete { key } => ReplyView::Deleted { removed: rows.contains_key(key) },
        CommandView::Read { key } => ReplyView::Value { value: rows.get(key) },
        CommandView::Upsert { key, value } => ReplyView::Stored,
    }
}

/// The cause that is recorded for a reply: the store's own words where it
/// reports a failure, and a fixed text for a reply of the wrong kind.
pub open spec fn failure_cause(reply: ReplyView) -> Seq<char> {
    match reply {
        ReplyView::Failed { cause } => cause,
        _ => "unexpected reply"@,
    }
}

/// The cause that is recorded for a reply.
pub(crate) fn cause_of(reply: StoreReply) -> (cause: String)
    ensures
        cause@ == failure_cause(reply@),
{
    match reply {
        StoreReply::Failed { cause } => cause,
        _ => "unexpected reply".to_owned(),
    }
}

/// One row of a table.
#[derive(Debug)]
struct Row {
    key: String,
    value: String,
}

/// The table that a list of rows stands for; of two rows with one key the
/// later counts.
spec fn rows_map(rows: Seq<Row>) -> Map<Seq<char>, Seq<char>>
    decreases rows.len(),
{
    if rows.len() == 0 {
        Map::empty()
    } else {
        rows_map(rows.drop_last()).insert(rows.last().key@, rows.last().value@)
    }
}

proof fn lemma_rows_map_push(rows: Seq<Row>, row: Row)
    ensures
        rows_map(rows.push(row)) == rows_map(rows).insert(row.key@, row.value@),
{
    assert(rows.push(row).drop_last() =~= rows);
}

proof fn lemma_rows_map_take(rows: Seq<Row>, n: int)
    requires
        0 <= n < rows.len(),
    ensures
        rows_map(rows.take(n + 1)) == rows_map(rows.take(n)).insert(rows[n].key@, rows[n].value@),
{
    assert(rows.take(n + 1).drop_last() =~= rows.take(n));
}

/// A table in memory.
#[derive(Debug)]
pub struct KeyStore {
    rows: Vec<Row>,
}

impl View for KeyStore {
    type V = Map<Seq<char>, Seq<char>>;

    closed spec fn view(&self) -> Map<Seq<char>, Seq<char>> {
        rows_map(self.rows@)
    }
}

impl KeyStore {
    /// The table without rows.
    pub fn new() -> (store: KeyStore)
        ensures
            store@ == Map::<Seq<char>, Seq<char>>::empty(),
    {
        KeyStore { rows: Vec::new() }
    }

    /// The value of `key`, where it has a row.
    pub fn read(&self, key: &str) -> (value: Option<String>)
        ensures
            text_view(value) == self@.get(key@),
    {
        let mut i: usize = self.rows.len();
        assert(self.rows@.take(i as int) =~= self.rows@);
        while i > 0
            invariant
                i <= self.rows.len(),
                self@.get(key@) == rows_map(self.rows@.take(i as int)).get(key@),
            decreases i,
        {
            i -= 1;
            proof {
                lemma_rows_map_take(self.rows@, i as int);
            }
            if same_text(self.rows[i].key.as_str(), key) {
                return Some(self.rows[i].value.clone());
            }
        }
        assert(self.rows@.take(0) =~= Seq::<Row>::empty());
        None
    }

    /// Deletes the row of `key`, and says whether there was one.
    pub fn delete(&mut self, key: &str) -> (removed: bool)
        ensures
            final(self)@ == old(self)@.remove(key@),
            removed == old(self)@.contains_key(key@),
    {
        let mut kept: Vec<Row> = Vec::new();
        let mut removed = false;
        let mut i: usize = 0;
        assert(self.rows@.take(0) =~= Seq::<Row>::empty());
        assert(rows_map(kept@) =~= rows_map(self.rows@.take(0)).remove(key@));
        while i < self.rows.len()
            invariant
                i <= self.rows.len(),
                self.rows == old(self).rows,
                rows_map(kept@) == rows_map(self.rows@.take(i as int)).remove(key@),
                removed == rows_map(self.rows@.take(i as int)).contains_key(key@),
            decreases self.rows.len() - i,
        {
            proof {
                lemma_rows_map_take(self.rows@, i as int);
            }
            if same_text(self.rows[i].key.as_str(), key) {
                removed = true;
                assert(rows_map(kept@) =~= rows_map(self.rows@.take(i + 1)).remove(key@));
            } else {
                let row = Row { key: self.rows[i].key.clone(), value: self.rows[i].value.clone() };
                proof {
                    lemma_rows_map_push(kept@, row);
                }
                kept.push(row);
                assert(rows_map(kept@) =~= rows_map(self.rows@.take(i + 1)).remove(key@));
            }
            i += 1;
        }
        assert(self.rows@.take(i as int) =~= self.rows@);
        self.rows = kept;
        removed
    }

    /// Inserts the row, in place of the one that `key` had.
    pub fn upsert(&mut self, key: &str, value: &str)
        ensures
            final(self)@ == old(self)@.insert(key@, value@),
    {
        self.delete(key);
        let row = Row { key: key.to_owned(), value: value.to_owned() };
        proof {
            lemma_rows_map_push(self.rows@, row);
        }
        self.rows.push(row);
        assert(self@ =~= old(self)@.insert(key@, value@));
    }

    /// Runs a command. A table in memory never fails.
    pub fn apply(&mut self, command: &StoreCommand) -> (reply: StoreReply)
        ensures
            final(self)@ == rows_after(old(self)@, command@),
            reply@ == reply_to(old(self)@, command@),
    {
        match command {
            StoreCommand::Delete { key } => {
                let removed = self.delete(key.as_str());
                StoreReply::Deleted { removed }
            },
            StoreCommand::Read { key } => {
                let value = self.read(key.as_str());
                StoreReply::Value { value }
            },
            StoreCommand::Upsert { key, value } => {
                self.upsert(key.as_str(), value.as_str());
                StoreReply::Stored
            },
        }
    }
}

} // verus!
