//! The sync marker: a JSON object that maps each tracked field to a flag.
//!
//! A field that has no row in the store has no entry in the marker: an
//! entry with flag 0 means something else to the application than no entry.

use vstd::prelude::*;
use crate::config::{FieldConfig, FieldConfigView};
use crate::text::{holds_any, lemma_take_contains, slice_view, texts, without_keys};
use crate::json::{
    empty_object, insert_integer, integer_member, json_document, json_text,
    member_integer, member_object, no_members, object_member, object_members, parse_object,
    remove_member, render_object, Json,
};

verus! {

/// The sync marker of a store.
#[derive(Debug)]
pub struct Marker {
    object: serde_json::Map<String, serde_json::Value>,
}

impl View for Marker {
    type V = Map<Seq<char>, Json>;

    closed spec fn view(&self) -> Map<Seq<char>, Json> {
        object_members(self.object)
    }
}

/// The marker that a row's text stands for: the members of the object it
/// holds, and no entry at all where the text is no JSON object.
pub open spec fn marker_of(text: Seq<char>) -> Map<Seq<char>, Json> {
    match json_document(text) {
        Some(Json::Object(members)) => members,
        _ => Map::empty(),
    }
}

/// The members of a snapshot's marker, where the snapshot has one.
pub open spec fn marker_members(marker: Option<&Marker>) -> Option<Map<Seq<char>, Json>> {
    match marker {
        Some(m) => Some(m@),
        None => None,
    }
}

/// The flag that a restored field gets: the one that the snapshot's marker
/// records for it, and the field's default where it records none.
pub open spec fn resolved_flag(snapshot_marker: Option<Map<Seq<char>, Json>>, key: Seq<char>, config: FieldConfigView) -> i64 {
    match snapshot_marker {
        Some(members) => match member_integer(members, key) {
            Some(flag) => flag,
            None => config.default_flag(key),
        },
        None => config.default_flag(key),
    }
}

/// Whether a restored key is entered into the marker.
pub open spec fn entered(restored: Seq<Seq<char>>, config: FieldConfigView, key: Seq<char>) -> bool {
    restored.contains(key) && config.registers(key)
}

/// The marker after a restore: each restored field that is entered has its
/// resolved flag, and every other entry is as before.
pub open spec fn merged_marker(
    current: Map<Seq<char>, Json>,
    snapshot_marker: Option<Map<Seq<char>, Json>>,
    restored: Seq<Seq<char>>,
    config: FieldConfigView,
) -> Map<Seq<char>, Json> {
    Map::new(
        |key: Seq<char>| current.contains_key(key) || entered(restored, config, key),
        |key: Seq<char>|
            if entered(restored, config, key) {
                Json::Integer(resolved_flag(snapshot_marker, key, config) as int)
            } else {
                current[key]
            },
    )
}

/// A field and the flag that it gets in the marker.
#[derive(Debug, Clone, PartialEq, Eq)]
pub struct FlagEntry {
    pub key: String,
    pub flag: i64,
}

/// A field and its flag as a mathematical value.
pub struct FlagEntryView {
    pub key: Seq<char>,
    pub flag: i64,
}

impl View for FlagEntry {
    type V = FlagEntryView;

    open spec fn view(&self) -> FlagEntryView {
        FlagEntryView { key: self.key@, flag: self.flag }
    }
}

/// The fields and flags of a list of entries.
pub open spec fn entry_views(entries: Seq<FlagEntry>) -> Seq<FlagEntryView> {
    entries.map_values(|e: FlagEntry| e@)
}

/// A marker in which the listed fields were entered with their flags, one
/// after the other.
pub open spec fn with_flags(current: Map<Seq<char>, Json>, entries: Seq<FlagEntryView>) -> Map<Seq<char>, Json>
    decreases entries.len(),
{
    if entries.len() == 0 {
        current
    } else {
        with_flags(current, entries.drop_last()).insert(entries.last().key, Json::Integer(entries.last().flag as int))
    }
}

/// The marker that the row of a store stands for; a store without such a
/// row has the marker without entries.
pub open spec fn marker_of_row(current: Option<Seq<char>>) -> Map<Seq<char>, Json> {
    match current {
        Some(text) => marker_of(text),
        None => Map::empty(),
    }
}

/// What entering the listed fields does to the row of the marker, whose
/// text is `current`: a rewrite with the text of the marker that holds
/// them.
pub open spec fn marker_entry(current: Option<Seq<char>>, entries: Seq<FlagEntryView>) -> MarkerUpdateView {
    match json_text(Json::Object(with_flags(marker_of_row(current), entries))) {
        Some(rewritten) => MarkerUpdateView::Write(rewritten),
        None => MarkerUpdateView::Fail,
    }
}

/// What is to be done with the row of the marker.
#[derive(Debug, Clone, PartialEq, Eq)]
pub enum MarkerUpdate {
    /// The row stays as it is.
    Keep,
    /// The row is rewritten with this text.
    Write(String),
    /// The row should be rewritten, but the marker has no text.
    Fail,
}

/// What is to be done with the row of the marker, as a mathematical value.
pub enum MarkerUpdateView {
    Keep,
    Write(Seq<char>),
    Fail,
}

impl View for MarkerUpdate {
    type V = MarkerUpdateView;

    open spec fn view(&self) -> MarkerUpdateView {
        match self {
            MarkerUpdate::Keep => MarkerUpdateView::Keep,
            MarkerUpdate::Write(text) => MarkerUpdateView::Write(text@),
            MarkerUpdate::Fail => MarkerUpdateView::Fail,
        }
    }
}

/// What removing the listed keys does to the row of the marker, whose text
/// is `current`: nothing where there is no row or where the marker tracks
/// none of the keys, and else a rewrite with the text of the marker without
/// them.
pub open spec fn marker_update(current: Option<Seq<char>>, keys: Seq<Seq<char>>) -> MarkerUpdateView {
    match current {
        None => MarkerUpdateView::Keep,
        Some(text) => if holds_any(marker_of(text), keys) {
            match json_text(Json::Object(without_keys(marker_of(text), keys))) {
                Some(rewritten) => MarkerUpdateView::Write(rewritten),
                None => MarkerUpdateView::Fail,
            }
        } else {
            MarkerUpdateView::Keep
        },
    }
}

/// The cause that is recorded for a marker that has no text.
pub open spec fn render_cause() -> Seq<char> {
    "marker not rendered"@
}

/// Removes the listed keys from the marker whose row has the text
/// `current`, and says what is to be done with the row. The entries are
/// removed, never set to 0.
pub fn remove_keys_from_marker(current: Option<&str>, keys: &Vec<String>) -> (update: MarkerUpdate)
    ensures
        update@ == marker_update(slice_view(current), texts(keys@)),
{
    match current {
        None => MarkerUpdate::Keep,
        Some(text) => {
            let mut marker = Marker::parse(text);
            if marker.remove(keys) {
                match marker.render() {
                    Ok(rewritten) => MarkerUpdate::Write(rewritten),
                    Err(_) => MarkerUpdate::Fail,
                }
            } else {
                MarkerUpdate::Keep
            }
        },
    }
}

/// Enters the listed fields into the marker whose row has the text
/// `current`, and says what is to be done with the row. Entries of other
/// fields stay as they are.
pub fn enter_flags_into_marker(current: Option<&str>, entries: &Vec<FlagEntry>) -> (update: MarkerUpdate)
    ensures
        update@ == marker_entry(slice_view(current), entry_views(entries@)),
{
    let mut marker = match current {
        Some(text) => Marker::parse(text),
        None => Marker::new(),
    };
    marker.enter(entries);
    match marker.render() {
        Ok(rewritten) => MarkerUpdate::Write(rewritten),
        Err(_) => MarkerUpdate::Fail,
    }
}

/// From the marker recorded in a snapshot, the flag of a restored field;
/// where the snapshot records none, the field's default.
pub fn get_marker_flag_from_backup(backup_marker: Option<&Marker>, key: &str, config: &FieldConfig) -> (flag: i64)
    ensures
        flag == resolved_flag(marker_members(backup_marker), key@, config@),
{
    match backup_marker {
        Some(marker) => match marker.flag(key) {
            Some(flag) => flag,
            None => config.default_flag(key),
        },
        None => config.default_flag(key),
    }
}

impl Marker {
    /// The marker without entries.
    pub fn new() -> (marker: Marker)
        ensures
            marker@ == no_members(),
    {
        Marker { object: empty_object() }
    }

    /// The marker that a row's text stands for. A text that is no JSON
    /// object stands for the marker without entries.
    pub fn parse(text: &str) -> (marker: Marker)
        ensures
            marker@ == marker_of(text@),
    {
        match parse_object(text) {
            Ok(Some(object)) => Marker { object },
            _ => Marker::new(),
        }
    }

    /// The marker that stands under `key` in a JSON object.
    pub(crate) fn member_of(object: &serde_json::Map<String, serde_json::Value>, key: &str) -> (marker: Option<Marker>)
        ensures
            match marker {
                Some(m) => member_object(object_members(*object), key@) == Some(m@),
                None => member_object(object_members(*object), key@) is None,
            },
    {
        match object_member(object, key) {
            Some(inner) => Some(Marker { object: inner }),
            None => None,
        }
    }

    /// The flag of `key`, where the marker has an entry for it that is an
    /// integer of 64 signed bits.
    pub fn flag(&self, key: &str) -> (flag: Option<i64>)
        ensures
            flag == member_integer(self@, key@),
    {
        integer_member(&self.object, key)
    }

    /// Enters `key` with `flag`, in place of the entry it had.
    pub fn set_flag(&mut self, key: &str, flag: i64)
        ensures
            final(self)@ == old(self)@.insert(key@, Json::Integer(flag as int)),
    {
        insert_integer(&mut self.object, key, flag);
    }

    /// Enters each listed field with its flag, one after the other.
    pub fn enter(&mut self, entries: &Vec<FlagEntry>)
        ensures
            final(self)@ == with_flags(old(self)@, entry_views(entries@)),
    {
        let ghost list = entry_views(entries@);
        let mut i: usize = 0;
        while i < entries.len()
            invariant
                i <= entries.len(),
                list == entry_views(entries@),
                self@ == with_flags(old(self)@, list.take(i as int)),
            decreases entries.len() - i,
        {
            assert(list.take(i + 1).drop_last() =~= list.take(i as int));
            self.set_flag(entries[i].key.as_str(), entries[i].flag);
            i += 1;
        }
        assert(list.take(entries.len() as int) =~= list);
    }

    /// Removes the entry of each listed key, and says whether there was one.
    pub fn remove(&mut self, keys: &Vec<String>) -> (changed: bool)
        ensures
            final(self)@ == without_keys(old(self)@, texts(keys@)),
            changed == holds_any(old(self)@, texts(keys@)),
    {
        let ghost names = texts(keys@);
        let mut changed = false;
        let mut i: usize = 0;
        assert(self@ =~= without_keys(old(self)@, names.take(0)));
        while i < keys.len()
            invariant
                i <= keys.len(),
                names == texts(keys@),
                self@ == without_keys(old(self)@, names.take(i as int)),
                changed == holds_any(old(self)@, names.take(i as int)),
            decreases keys.len() - i,
        {
            let ghost before = self@;
            let removed = remove_member(&mut self.object, keys[i].as_str());
            proof {
                let next = names.take(i + 1);
                assert forall|k: Seq<char>| next.contains(k) <==> (names.take(i as int).contains(k) || names[i as int] == k) by {
                    lemma_take_contains(names, i as int, k);
                }
                assert(self@ =~= without_keys(old(self)@, next));
                if holds_any(old(self)@, names.take(i as int)) {
                    let j = choose|j: int| 0 <= j < names.take(i as int).len() && old(self)@.contains_key(#[trigger] names.take(i as int)[j]);
                    assert(old(self)@.contains_key(next[j]));
                }
                if removed {
                    assert(old(self)@.contains_key(next[i as int]));
                }
                if holds_any(old(self)@, next) {
                    let j = choose|j: int| 0 <= j < next.len() && old(self)@.contains_key(#[trigger] next[j]);
                    if j < i {
                        assert(old(self)@.contains_key(names.take(i as int)[j]));
                    } else {
                        assert(before.contains_key(names[i as int]) || names.take(i as int).contains(names[i as int]));
                        if names.take(i as int).contains(names[i as int]) {
                            let h = choose|h: int| 0 <= h < names.take(i as int).len() && names.take(i as int)[h] == names[i as int];
                            assert(old(self)@.contains_key(names.take(i as int)[h]));
                        }
                    }
                }
            }
            if removed {
                changed = true;
            }
            i += 1;
        }
        assert(names.take(keys.len() as int) =~= names);
        changed
    }

    /// Enters each restored field with the flag that the snapshot's marker
    /// records for it, or with its default, and leaves the other entries.
    /// The reserved key that announces a new storage is never entered.
    pub fn merge(&mut self, snapshot_marker: Option<&Marker>, restored: &Vec<String>, config: &FieldConfig)
        ensures
            final(self)@ == merged_marker(old(self)@, marker_members(snapshot_marker), texts(restored@), config@),
    {
        let ghost names = texts(restored@);
        let ghost snap = marker_members(snapshot_marker);
        let mut i: usize = 0;
        assert(self@ =~= merged_marker(old(self)@, snap, names.take(0), config@));
        while i < restored.len()
            invariant
                i <= restored.len(),
                names == texts(restored@),
                snap == marker_members(snapshot_marker),
                self@ == merged_marker(old(self)@, snap, names.take(i as int), config@),
            decreases restored.len() - i,
        {
            let key = restored[i].as_str();
            assert(names[i as int] == key@);
            if config.registers(key) {
                let flag = get_marker_flag_from_backup(snapshot_marker, key, config);
                self.set_flag(key, flag);
            }
            proof {
                let after = merged_marker(old(self)@, snap, names.take(i + 1), config@);
                assert forall|k: Seq<char>| self@.contains_key(k) == after.contains_key(k) by {
                    lemma_take_contains(names, i as int, k);
                }
                assert forall|k: Seq<char>| self@.contains_key(k) implies self@[k] == after[k] by {
                    lemma_take_contains(names, i as int, k);
                }
                assert(self@ =~= after);
            }
            i += 1;
        }
        assert(names.take(restored.len() as int) =~= names);
    }

    /// The text of the marker for its row, or the reason why it has none.
    pub fn render(&self) -> (r: Result<String, String>)
        ensures
            match r {
                Ok(text) => json_text(Json::Object(self@)) == Some(text@),
                Err(_) => json_text(Json::Object(self@)) is None,
            },
    {
        match render_object(&self.object) {
            Ok(text) => Ok(text),
            Err(e) => Err(e.to_string()),
        }
    }
}

} // verus!
