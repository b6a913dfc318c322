//! The catalog of snapshots: one file for each saved account, all in one
//! directory. The name of a snapshot file is the account's identifier
//! followed by `.json`; other files of the directory are not the
//! catalog's.

use vstd::prelude::*;
use crate::json::{json_document, parse_object, pretty_json, render_pretty};
use crate::text::{same_text, text_view, texts};

verus! {

/// The ending of a snapshot file's name.
pub open spec fn snapshot_suffix() -> Seq<char> {
    ".json"@
}

/// The identifier of the account whose snapshot a file of this name holds:
/// what stands before the ending `.json`, where the name has that ending
/// and something before it.
pub open spec fn identifier_of(file_name: Seq<char>) -> Option<Seq<char>> {
    let stem = file_name.len() - 5;
    if stem > 0 && file_name.subrange(stem, file_name.len() as int) == snapshot_suffix() {
        Some(file_name.subrange(0, stem))
    } else {
        None
    }
}

/// The identifier of the account whose snapshot a file of this name holds,
/// or `None` where the file is no snapshot.
pub fn snapshot_identifier(file_name: &str) -> (identifier: Option<String>)
    ensures
        text_view(identifier) == identifier_of(file_name@),
{
    let length = file_name.unicode_len();
    if length <= 5 {
        return None;
    }
    let stem = length - 5;
    if same_text(file_name.substring_char(stem, length), ".json") {
        Some(file_name.substring_char(0, stem).to_owned())
    } else {
        None
    }
}

/// The name of the file that holds the snapshot of an account.
pub fn snapshot_file_name(name: &str) -> (file_name: String)
    ensures
        file_name@ == name@ + snapshot_suffix(),
{
    let mut file_name = name.to_owned();
    file_name.append(".json");
    file_name
}

/// A file of the catalog's directory: its name, and the time at which it
/// was last modified, as a count from some fixed instant.
#[derive(Debug, Clone, PartialEq, Eq)]
pub struct CatalogEntry {
    pub file_name: String,
    pub modified: u64,
}

/// A file of the directory as a mathematical value.
pub struct CatalogEntryView {
    pub file_name: Seq<char>,
    pub modified: u64,
}

impl View for CatalogEntry {
    type V = CatalogEntryView;

    open spec fn view(&self) -> CatalogEntryView {
        CatalogEntryView { file_name: self.file_name@, modified: self.modified }
    }
}

/// The files of a list.
pub open spec fn entry_views(entries: Seq<CatalogEntry>) -> Seq<CatalogEntryView> {
    entries.map_values(|e: CatalogEntry| e@)
}

/// A saved account: its identifier, and the time at which its snapshot was
/// last modified.
pub struct Account {
    pub name: Seq<char>,
    pub modified: u64,
}

/// The saved accounts among the files of a directory, in the order of the
/// files.
pub open spec fn accounts_of(entries: Seq<CatalogEntryView>) -> Seq<Account>
    decreases entries.len(),
{
    if entries.len() == 0 {
        Seq::empty()
    } else {
        let before = accounts_of(entries.drop_last());
        match identifier_of(entries.last().file_name) {
            Some(name) => before.push(Account { name, modified: entries.last().modified }),
            None => before,
        }
    }
}

/// The number of accounts at the head of a list that were modified no
/// earlier than `modified`.
pub open spec fn slot_for(accounts: Seq<Account>, modified: u64) -> int
    decreases accounts.len(),
{
    if accounts.len() > 0 && accounts.first().modified >= modified {
        1 + slot_for(accounts.drop_first(), modified)
    } else {
        0
    }
}

/// The accounts of a list with the most recently modified first; of two
/// that were modified at the same time, the one listed first comes first.
pub open spec fn recent_first(accounts: Seq<Account>) -> Seq<Account>
    decreases accounts.len(),
{
    if accounts.len() == 0 {
        Seq::empty()
    } else {
        let sorted = recent_first(accounts.drop_last());
        sorted.insert(slot_for(sorted, accounts.last().modified), accounts.last())
    }
}

/// Whether each account of a list was modified no earlier than the next.
pub open spec fn is_recent_first(accounts: Seq<Account>) -> bool {
    forall|i: int, j: int| 0 <= i < j < accounts.len() ==> accounts[i].modified >= accounts[j].modified
}

/// The identifiers that a listing of the catalog gives: those of the saved
/// accounts, the most recently modified first, cut to `limit` where there
/// is one.
pub open spec fn recent_names(entries: Seq<CatalogEntryView>, limit: Option<usize>) -> Seq<Seq<char>> {
    let names = recent_first(accounts_of(entries)).map_values(|a: Account| a.name);
    match limit {
        Some(n) => if n < names.len() {
            names.take(n as int)
        } else {
            names
        },
        None => names,
    }
}

/// Where an account goes among accounts that are listed the most recent
/// first.
pub proof fn lemma_slot(accounts: Seq<Account>, modified: u64)
    requires
        is_recent_first(accounts),
    ensures
        0 <= slot_for(accounts, modified) <= accounts.len(),
        forall|i: int| 0 <= i < slot_for(accounts, modified) ==> accounts[i].modified >= modified,
        forall|i: int| slot_for(accounts, modified) <= i < accounts.len() ==> accounts[i].modified < modified,
    decreases accounts.len(),
{
    if accounts.len() > 0 && accounts.first().modified >= modified {
        let rest = accounts.drop_first();
        assert forall|i: int, j: int| 0 <= i < j < rest.len() implies rest[i].modified >= rest[j].modified by {
            assert(rest[i] == accounts[i + 1] && rest[j] == accounts[j + 1]);
        }
        lemma_slot(rest, modified);
        assert forall|i: int| 0 <= i < slot_for(accounts, modified) implies accounts[i].modified >= modified by {
            if i > 0 {
                assert(accounts[i] == rest[i - 1]);
            }
        }
        assert forall|i: int| slot_for(accounts, modified) <= i < accounts.len() implies accounts[i].modified < modified by {
            assert(accounts[i] == rest[i - 1]);
        }
    } else if accounts.len() > 0 {
        assert forall|i: int| 0 <= i < accounts.len() implies accounts[i].modified < modified by {
            if i > 0 {
                assert(accounts[0].modified >= accounts[i].modified);
            }
        }
    }
}

/// A listing holds each account once, and the most recently modified
/// first.
pub proof fn lemma_recent_first(accounts: Seq<Account>)
    ensures
        is_recent_first(recent_first(accounts)),
        recent_first(accounts).to_multiset() == accounts.to_multiset(),
        recent_first(accounts).len() == accounts.len(),
    decreases accounts.len(),
{
    broadcast use vstd::seq_lib::group_to_multiset_ensures;

    if accounts.len() > 0 {
        let shorter = accounts.drop_last();
        let last = accounts.last();
        let sorted = recent_first(shorter);
        lemma_recent_first(shorter);
        lemma_slot(sorted, last.modified);
        let slot = slot_for(sorted, last.modified);
        let result = sorted.insert(slot, last);
        assert forall|i: int, j: int| 0 <= i < j < result.len() implies result[i].modified >= result[j].modified by {
            if i < slot && j > slot {
                assert(result[i] == sorted[i] && result[j] == sorted[j - 1]);
            } else if i > slot {
                assert(result[i] == sorted[i - 1] && result[j] == sorted[j - 1]);
            } else if j < slot {
                assert(result[i] == sorted[i] && result[j] == sorted[j]);
            }
        }
        assert(result.remove(slot) =~= sorted);
        assert(result[slot] == last);
        assert(result.to_multiset() =~= sorted.to_multiset().insert(last));
        assert(shorter.push(last) =~= accounts);
    }
}

/// The identifiers of the saved accounts among the files of a directory,
/// the most recently modified first, and at most `limit` of them where
/// there is a limit.
pub fn get_recent_accounts(entries: &Vec<CatalogEntry>, limit: Option<usize>) -> (names: Vec<String>)
    ensures
        texts(names@) == recent_names(entry_views(entries@), limit),
{
    let ghost files = entry_views(entries@);
    let mut names: Vec<String> = Vec::new();
    let mut times: Vec<u64> = Vec::new();
    let ghost mut sorted: Seq<Account> = Seq::empty();
    let mut i: usize = 0;
    assert(files.take(0) =~= Seq::<CatalogEntryView>::empty());
    while i < entries.len()
        invariant
            i <= entries.len(),
            files == entry_views(entries@),
            sorted == recent_first(accounts_of(files.take(i as int))),
            is_recent_first(sorted),
            names.len() == sorted.len(),
            times.len() == sorted.len(),
            forall|k: int| 0 <= k < sorted.len() ==> names[k]@ == (#[trigger] sorted[k]).name && times[k] == sorted[k].modified,
        decreases entries.len() - i,
    {
        assert(files.take(i + 1).drop_last() =~= files.take(i as int));
        assert(files.take(i + 1).last() == files[i as int]);
        match snapshot_identifier(entries[i].file_name.as_str()) {
            Some(name) => {
                let modified = entries[i].modified;
                let ghost account = Account { name: name@, modified };
                let mut slot: usize = 0;
                assert(sorted.subrange(0, sorted.len() as int) =~= sorted);
                while slot < times.len() && times[slot] >= modified
                    invariant
                        slot <= times.len(),
                        times.len() == sorted.len(),
                        forall|k: int| 0 <= k < sorted.len() ==> times[k] == (#[trigger] sorted[k]).modified,
                        slot_for(sorted, modified) == slot + slot_for(sorted.subrange(slot as int, sorted.len() as int), modified),
                    decreases times.len() - slot,
                {
                    proof {
                        let rest = sorted.subrange(slot as int, sorted.len() as int);
                        assert(rest.first() == sorted[slot as int]);
                        assert(rest.drop_first() =~= sorted.subrange(slot + 1, sorted.len() as int));
                    }
                    slot += 1;
                }
                proof {
                    let rest = sorted.subrange(slot as int, sorted.len() as int);
                    if slot < times.len() {
                        assert(rest.first() == sorted[slot as int]);
                    }
                    assert(slot_for(sorted, modified) == slot);
                    lemma_recent_first(accounts_of(files.take(i as int)).push(account));
                    assert(accounts_of(files.take(i as int)).push(account).drop_last() =~= accounts_of(files.take(i as int)));
                }
                let ghost old_names = names@;
                let ghost old_times = times@;
                let ghost old_sorted = sorted;
                names.insert(slot, name);
                times.insert(slot, modified);
                proof {
                    sorted = old_sorted.insert(slot as int, account);
                    assert forall|k: int| 0 <= k < sorted.len() implies names[k]@ == (#[trigger] sorted[k]).name && times[k] == sorted[k].modified by {
                        if k < slot {
                            assert(names[k] == old_names[k] && times[k] == old_times[k] && sorted[k] == old_sorted[k]);
                        } else if k > slot {
                            assert(names[k] == old_names[k - 1] && times[k] == old_times[k - 1] && sorted[k] == old_sorted[k - 1]);
                        }
                    }
                }
            },
            None => {},
        }
        i += 1;
    }
    assert(files.take(entries.len() as int) =~= files);
    assert(texts(names@) =~= sorted.map_values(|a: Account| a.name)) by {
        assert forall|k: int| 0 <= k < sorted.len() implies texts(names@)[k] == (#[trigger] sorted[k]).name by {
        }
    }
    match limit {
        Some(n) => {
            if n < names.len() {
                names.truncate(n);
                assert(texts(names@) =~= sorted.map_values(|a: Account| a.name).take(n as int));
            }
        },
        None => {},
    }
    names
}

/// The names of the snapshot files among the files of a directory, in
/// their order.
pub open spec fn snapshot_files_of(file_names: Seq<Seq<char>>) -> Seq<Seq<char>> {
    file_names.filter(|name: Seq<char>| identifier_of(name) is Some)
}

/// The snapshot files among the files of the catalog's directory: the
/// files that are read when the catalog is collected, and deleted when it
/// is emptied.
pub fn snapshot_files(file_names: &Vec<String>) -> (found: Vec<String>)
    ensures
        texts(found@) == snapshot_files_of(texts(file_names@)),
{
    let ghost names = texts(file_names@);
    let mut found: Vec<String> = Vec::new();
    let mut i: usize = 0;
    assert(names.take(0) =~= Seq::<Seq<char>>::empty());
    while i < file_names.len()
        invariant
            i <= file_names.len(),
            names == texts(file_names@),
            texts(found@) == snapshot_files_of(names.take(i as int)),
        decreases file_names.len() - i,
    {
        assert(names.take(i + 1).drop_last() =~= names.take(i as int));
        assert(names.take(i + 1).last() == names[i as int]);
        reveal(Seq::filter);
        if snapshot_identifier(file_names[i].as_str()).is_some() {
            let ghost before = texts(found@);
            found.push(file_names[i].clone());
            assert(texts(found@) =~= before.push(names[i as int]));
        }
        i += 1;
    }
    assert(names.take(file_names.len() as int) =~= names);
    found
}

/// Whether a text is a JSON document: the snapshot files whose text is
/// none are left out when the catalog is read.
pub fn is_snapshot_text(text: &str) -> (valid: bool)
    ensures
        valid == json_document(text@).is_some(),
{
    parse_object(text).is_ok()
}

/// A snapshot file as it was found: its name, its text where it could be
/// read, and the time at which it was read.
#[derive(Debug, Clone, PartialEq, Eq)]
pub struct BackupFile {
    pub filename: String,
    pub content: Option<String>,
    pub read_at: u64,
}

/// The content of one snapshot file: its name, its text, which is a JSON
/// document, and the time at which it was read.
#[derive(Debug, Clone, PartialEq, Eq)]
pub struct BackupData {
    pub filename: String,
    pub content: String,
    pub timestamp: u64,
}

/// The content of a snapshot file as a mathematical value.
pub struct BackupDataView {
    pub filename: Seq<char>,
    pub content: Seq<char>,
    pub timestamp: u64,
}

impl View for BackupData {
    type V = BackupDataView;

    open spec fn view(&self) -> BackupDataView {
        BackupDataView { filename: self.filename@, content: self.content@, timestamp: self.timestamp }
    }
}

/// The contents of a list.
pub open spec fn backup_views(backups: Seq<BackupData>) -> Seq<BackupDataView> {
    backups.map_values(|b: BackupData| b@)
}

/// Whether a file that was found belongs to what the catalog hands out: it
/// is a snapshot file, it could be read, and its text is a JSON document.
pub open spec fn is_collected(file: BackupFile) -> bool {
    &&& identifier_of(file.filename@) is Some
    &&& file.content is Some
    &&& json_document(file.content->0@) is Some
}

/// The contents that the catalog hands out of the files that were found,
/// in their order.
pub open spec fn collected(files: Seq<BackupFile>) -> Seq<BackupDataView>
    decreases files.len(),
{
    if files.len() == 0 {
        Seq::empty()
    } else {
        let before = collected(files.drop_last());
        let file = files.last();
        if is_collected(file) {
            before.push(BackupDataView { filename: file.filename@, content: file.content->0@, timestamp: file.read_at })
        } else {
            before
        }
    }
}

/// The contents of the snapshot files of the catalog. A file that could
/// not be read, or whose text is no JSON document, is left out.
pub fn collect_backup_contents(files: Vec<BackupFile>) -> (backups: Vec<BackupData>)
    ensures
        backup_views(backups@) == collected(files@),
{
    let mut backups: Vec<BackupData> = Vec::new();
    let mut i: usize = 0;
    assert(files@.take(0) =~= Seq::<BackupFile>::empty());
    while i < files.len()
        invariant
            i <= files.len(),
            backup_views(backups@) == collected(files@.take(i as int)),
        decreases files.len() - i,
    {
        assert(files@.take(i + 1).drop_last() =~= files@.take(i as int));
        assert(files@.take(i + 1).last() == files@[i as int]);
        if snapshot_identifier(files[i].filename.as_str()).is_some() {
            match &files[i].content {
                Some(text) => {
                    if is_snapshot_text(text.as_str()) {
                        let ghost before = backup_views(backups@);
                        let backup = BackupData {
                            filename: files[i].filename.clone(),
                            content: text.clone(),
                            timestamp: files[i].read_at,
                        };
                        backups.push(backup);
                        assert(backup_views(backups@) =~= before.push(backup@));
                    }
                },
                None => {},
            }
        }
        i += 1;
    }
    assert(files@.take(files.len() as int) =~= files@);
    backups
}

/// The text that is written to the file of a snapshot: its content in
/// indented lines, and nothing where the content is no JSON document.
pub open spec fn file_text(content: Seq<char>) -> Seq<char> {
    match pretty_json(content) {
        Some(pretty) => pretty,
        None => Seq::empty(),
    }
}

/// The text that is written to the file of a snapshot.
pub fn snapshot_file_text(backup: &BackupData) -> (text: String)
    ensures
        text@ == file_text(backup.content@),
{
    match render_pretty(backup.content.as_str()) {
        Some(pretty) => pretty,
        None => String::new(),
    }
}

/// What came of writing one snapshot file: its name, and the error where
/// the file could not be written.
#[derive(Debug, Clone, PartialEq, Eq)]
pub struct WriteOutcome {
    pub filename: String,
    pub error: Option<String>,
}

/// A snapshot file that could not be written.
#[derive(Debug, Clone, PartialEq, Eq)]
pub struct FailedBackup {
    pub filename: String,
    pub error: String,
}

/// What came of writing a set of snapshot files.
#[derive(Debug, Clone, PartialEq, Eq)]
pub struct RestoreResult {
    pub restored_count: u32,
    pub failed: Vec<FailedBackup>,
}

/// A snapshot file that could not be written, as a mathematical value.
pub struct FailedBackupView {
    pub filename: Seq<char>,
    pub error: Seq<char>,
}

impl View for FailedBackup {
    type V = FailedBackupView;

    open spec fn view(&self) -> FailedBackupView {
        FailedBackupView { filename: self.filename@, error: self.error@ }
    }
}

/// The failures of a list.
pub open spec fn failure_views(failed: Seq<FailedBackup>) -> Seq<FailedBackupView> {
    failed.map_values(|f: FailedBackup| f@)
}

/// The number of files of a list that were written.
pub open spec fn written_count(outcomes: Seq<WriteOutcome>) -> nat
    decreases outcomes.len(),
{
    if outcomes.len() == 0 {
        0
    } else {
        written_count(outcomes.drop_last()) + if outcomes.last().error is None {
            1nat
        } else {
            0nat
        }
    }
}

/// The files of a list that could not be written, in their order.
pub open spec fn failures_of(outcomes: Seq<WriteOutcome>) -> Seq<FailedBackupView>
    decreases outcomes.len(),
{
    if outcomes.len() == 0 {
        Seq::empty()
    } else {
        let before = failures_of(outcomes.drop_last());
        match outcomes.last().error {
            Some(error) => before.push(FailedBackupView { filename: outcomes.last().filename@, error: error@ }),
            None => before,
        }
    }
}

/// The result of writing a set of snapshot files: how many were written,
/// and which were not, with the error of each.
pub fn restore_backup_files(outcomes: Vec<WriteOutcome>) -> (result: RestoreResult)
    requires
        outcomes.len() <= u32::MAX,
    ensures
        result.restored_count == written_count(outcomes@),
        failure_views(result.failed@) == failures_of(outcomes@),
{
    let mut restored_count: u32 = 0;
    let mut failed: Vec<FailedBackup> = Vec::new();
    let mut i: usize = 0;
    assert(outcomes@.take(0) =~= Seq::<WriteOutcome>::empty());
    while i < outcomes.len()
        invariant
            i <= outcomes.len() <= u32::MAX,
            restored_count == written_count(outcomes@.take(i as int)),
            restored_count <= i,
            failure_views(failed@) == failures_of(outcomes@.take(i as int)),
        decreases outcomes.len() - i,
    {
        assert(outcomes@.take(i + 1).drop_last() =~= outcomes@.take(i as int));
        assert(outcomes@.take(i + 1).last() == outcomes@[i as int]);
        match &outcomes[i].error {
            Some(error) => {
                let ghost before = failure_views(failed@);
                let failure = FailedBackup { filename: outcomes[i].filename.clone(), error: error.clone() };
                failed.push(failure);
                assert(failure_views(failed@) =~= before.push(failure@));
            },
            None => {
                restored_count = restored_count + 1;
            },
        }
        i += 1;
    }
    assert(outcomes@.take(outcomes.len() as int) =~= outcomes@);
    RestoreResult { restored_count, failed }
}

} // verus!
