//! JSON documents, as far as the reconciliation reads and writes them.
//!
//! Parsing and rendering are done by `serde_json`. This module declares the
//! types of that crate which pass through the library, gives their contents
//! a mathematical model, and wraps the calls that the library makes. The
//! contracts in this module are believed, not proved.

use vstd::prelude::*;

verus! {

/// The value of a JSON document, as `serde_json` holds it.
pub enum Json {
    Null,
    Bool(bool),
    /// A number that is held as an integer.
    Integer(int),
    /// A number that is held in floating point, by the text it is written
    /// as.
    Fraction(Seq<char>),
    Text(Seq<char>),
    Array(Seq<Json>),
    /// An object: of two members with one name, only the later is held.
    Object(Map<Seq<char>, Json>),
}

/// `serde_json::Map`, the members of a JSON object by their names.
#[verifier::external_type_specification]
#[verifier::external_body]
#[verifier::reject_recursive_types(K)]
#[verifier::reject_recursive_types(V)]
pub struct ExObject<K, V>(serde_json::Map<K, V>);

/// `serde_json::Value`, a JSON value.
#[verifier::external_type_specification]
#[verifier::external_body]
pub struct ExValue(serde_json::Value);

/// `serde_json::Error`, the fault that parsing or rendering reports.
#[verifier::external_type_specification]
#[verifier::external_body]
pub struct ExError(serde_json::Error);

/// The members that a `serde_json::Map` holds, by key.
pub uninterp spec fn object_members(object: serde_json::Map<String, serde_json::Value>) -> Map<Seq<char>, Json>;

/// What `serde_json::from_str` makes of a text: the document's value, or
/// `None` where it reports an error.
pub uninterp spec fn json_document(text: Seq<char>) -> Option<Json>;

/// What `serde_json::to_string` makes of a value: its compact text, or
/// `None` where it reports an error.
pub uninterp spec fn json_text(value: Json) -> Option<Seq<char>>;

/// What `serde_json::to_string_pretty` makes of a value: its text in
/// indented lines, or `None` where it reports an error.
pub uninterp spec fn json_pretty_text(value: Json) -> Option<Seq<char>>;

/// The document of a text in indented lines, where the text is a
/// document and has such a text.
pub open spec fn pretty_json(text: Seq<char>) -> Option<Seq<char>> {
    match json_document(text) {
        Some(document) => json_pretty_text(document),
        None => None,
    }
}

/// The members of an object without members.
pub open spec fn no_members() -> Map<Seq<char>, Json> {
    Map::empty()
}

/// The string stored under `key`, if there is a member of that name and it
/// is a string.
pub open spec fn member_text(members: Map<Seq<char>, Json>, key: Seq<char>) -> Option<Seq<char>> {
    if members.contains_key(key) {
        match members[key] {
            Json::Text(s) => Some(s),
            _ => None,
        }
    } else {
        None
    }
}

/// The integer stored under `key`, if there is a member of that name and it
/// is an integer that fits 64 signed bits.
pub open spec fn member_integer(members: Map<Seq<char>, Json>, key: Seq<char>) -> Option<i64> {
    if members.contains_key(key) {
        match members[key] {
            Json::Integer(i) => if i64::MIN <= i <= i64::MAX {
                Some(i as i64)
            } else {
                None
            },
            _ => None,
        }
    } else {
        None
    }
}

/// The members of the object stored under `key`, if there is a member of
/// that name and it is an object.
pub open spec fn member_object(members: Map<Seq<char>, Json>, key: Seq<char>) -> Option<Map<Seq<char>, Json>> {
    if members.contains_key(key) {
        match members[key] {
            Json::Object(inner) => Some(inner),
            _ => None,
        }
    } else {
        None
    }
}

/// Calls `serde_json::from_str` for a `serde_json::Value` and hands out the
/// members where the document is an object. Claimed: the three outcomes are
/// an object document, another document, and a text that does not parse.
#[verifier::external_body]
pub(crate) fn parse_object(text: &str) -> (r: Result<Option<serde_json::Map<String, serde_json::Value>>, serde_json::Error>)
    ensures
        match r {
            Ok(Some(object)) => json_document(text@) == Some(Json::Object(object_members(object))),
            Ok(None) => json_document(text@) is Some && !(json_document(text@)->0 is Object),
            Err(_) => json_document(text@) is None,
        },
{
    match serde_json::from_str::<serde_json::Value>(text) {
        Ok(serde_json::Value::Object(object)) => Ok(Some(object)),
        Ok(_) => Ok(None),
        Err(e) => Err(e),
    }
}

/// Calls `serde_json::to_string` on a map. Claimed: the text is that of the
/// object with the map's members.
#[verifier::external_body]
pub(crate) fn render_object(object: &serde_json::Map<String, serde_json::Value>) -> (r: Result<String, serde_json::Error>)
    ensures
        match r {
            Ok(text) => json_text(Json::Object(object_members(*object))) == Some(text@),
            Err(_) => json_text(Json::Object(object_members(*object))) is None,
        },
{
    serde_json::to_string(object)
}

/// Calls `serde_json::Map::new`. Claimed: the new map has no member.
#[verifier::external_body]
pub(crate) fn empty_object() -> (r: serde_json::Map<String, serde_json::Value>)
    ensures
        object_members(r) == no_members(),
{
    serde_json::Map::new()
}

/// Calls `serde_json::Map::get` and `serde_json::Value::as_str`. Claimed:
/// the result is the member's string, where the member exists and is one.
#[verifier::external_body]
pub(crate) fn text_member(object: &serde_json::Map<String, serde_json::Value>, key: &str) -> (r: Option<String>)
    ensures
        match r {
            Some(text) => member_text(object_members(*object), key@) == Some(text@),
            None => member_text(object_members(*object), key@) is None,
        },
{
    Some(object.get(key)?.as_str()?.to_string())
}

/// Calls `serde_json::Map::get` and `serde_json::Value::as_i64`. Claimed:
/// the result is the member's integer, where the member exists and is an
/// integer of 64 signed bits.
#[verifier::external_body]
pub(crate) fn integer_member(object: &serde_json::Map<String, serde_json::Value>, key: &str) -> (r: Option<i64>)
    ensures
        r == member_integer(object_members(*object), key@),
{
    object.get(key)?.as_i64()
}

/// Calls `serde_json::Map::get` and `serde_json::Value::as_object`, and
/// copies the inner map. Claimed: the result holds the members of the
/// object stored under the key, where the member exists and is an object.
#[verifier::external_body]
pub(crate) fn object_member(object: &serde_json::Map<String, serde_json::Value>, key: &str) -> (r: Option<serde_json::Map<String, serde_json::Value>>)
    ensures
        match r {
            Some(inner) => member_object(object_members(*object), key@) == Some(object_members(inner)),
            None => member_object(object_members(*object), key@) is None,
        },
{
    Some(object.get(key)?.as_object()?.clone())
}

/// Calls `serde_json::Map::remove`. Claimed: the member of that name is
/// gone, the others stay, and the result says whether there was one.
#[verifier::external_body]
pub(crate) fn remove_member(object: &mut serde_json::Map<String, serde_json::Value>, key: &str) -> (removed: bool)
    ensures
        removed == object_members(*old(object)).contains_key(key@),
        object_members(*final(object)) == object_members(*old(object)).remove(key@),
{
    object.remove(key).is_some()
}

/// Calls `serde_json::Map::insert` with the `serde_json::Value` of an
/// integer. Claimed: the member of that name is now that integer, and the
/// others stay.
#[verifier::external_body]
pub(crate) fn insert_integer(object: &mut serde_json::Map<String, serde_json::Value>, key: &str, value: i64)
    ensures
        object_members(*final(object)) == object_members(*old(object)).insert(key@, Json::Integer(value as int)),
{
    object.insert(key.to_string(), serde_json::Value::from(value));
}

/// Calls `serde_json::from_str` for a `serde_json::Value` and
/// `serde_json::to_string_pretty` on the value it gives. Claimed: the
/// result is the indented text of the document that the text holds.
#[verifier::external_body]
pub(crate) fn render_pretty(text: &str) -> (r: Option<String>)
    ensures
        match r {
            Some(pretty) => json_document(text@) is Some && json_pretty_text(json_document(text@)->0) == Some(pretty@),
            None => json_document(text@) is None || json_pretty_text(json_document(text@)->0) is None,
        },
{
    let value = serde_json::from_str::<serde_json::Value>(text).ok()?;
    serde_json::to_string_pretty(&value).ok()
}

} // verus!
