//! Strings as keys: their comparison, and maps and lists keyed by them.

use vstd::prelude::*;
use vstd::utf8::*;

verus! {

/// Whether two strings hold the same characters.
pub fn same_text(a: &str, b: &str) -> (same: bool)
    ensures
        same == (a@ == b@),
{
    let x = a.as_bytes();
    let y = b.as_bytes();
    proof {
        encode_utf8_decode_utf8(a@);
        encode_utf8_decode_utf8(b@);
    }
    if x.len() != y.len() {
        return false;
    }
    let mut i: usize = 0;
    while i < x.len()
        invariant
            i <= x.len(),
            x.len() == y.len(),
            x@ == encode_utf8(a@),
            y@ == encode_utf8(b@),
            forall|j: int| 0 <= j < i ==> x@[j] == y@[j],
        decreases x.len() - i,
    {
        if x[i] != y[i] {
            return false;
        }
        i += 1;
    }
    assert(x@ =~= y@);
    true
}

/// The characters of a string that may be absent.
pub open spec fn text_view(text: Option<String>) -> Option<Seq<char>> {
    match text {
        Some(s) => Some(s@),
        None => None,
    }
}

/// The characters of a string slice that may be absent.
pub open spec fn slice_view(text: Option<&str>) -> Option<Seq<char>> {
    match text {
        Some(s) => Some(s@),
        None => None,
    }
}

/// The characters of each string of a list.
pub open spec fn texts(list: Seq<String>) -> Seq<Seq<char>> {
    list.map_values(|s: String| s@)
}

/// A map without the entries of the listed keys.
pub open spec fn without_keys<V>(entries: Map<Seq<char>, V>, keys: Seq<Seq<char>>) -> Map<Seq<char>, V> {
    entries.remove_keys(keys.to_set())
}

/// Whether a map has an entry for one of the listed keys.
pub open spec fn holds_any<V>(entries: Map<Seq<char>, V>, keys: Seq<Seq<char>>) -> bool {
    exists|i: int| 0 <= i < keys.len() && entries.contains_key(#[trigger] keys[i])
}

/// Membership in a prefix that grows by one.
pub proof fn lemma_take_contains<A>(s: Seq<A>, n: int, x: A)
    requires
        0 <= n < s.len(),
    ensures
        s.take(n + 1).contains(x) <==> (s.take(n).contains(x) || s[n] == x),
{
    let shorter = s.take(n);
    let longer = s.take(n + 1);
    if shorter.contains(x) {
        let i = choose|i: int| 0 <= i < shorter.len() && shorter[i] == x;
        assert(longer[i] == x);
    }
    if s[n] == x {
        assert(longer[n] == x);
    }
    if longer.contains(x) {
        let i = choose|i: int| 0 <= i < longer.len() && longer[i] == x;
        if i < n {
            assert(shorter[i] == x);
        }
    }
}

/// The characters of a string.
pub fn characters(text: &str) -> (list: Vec<char>)
    ensures
        list@ == text@,
{
    let mut list: Vec<char> = Vec::new();
    for c in it: text.chars()
        invariant
            list@ == it.seq().take(it.index() as int),
            it.seq() == text@,
    {
        list.push(c);
    }
    list
}

/// Whether `needle` stands in `text` at the position `at`.
pub open spec fn occurs_at(text: Seq<char>, needle: Seq<char>, at: int) -> bool {
    0 <= at && at + needle.len() <= text.len() && text.subrange(at, at + needle.len()) == needle
}

/// Whether `needle` stands somewhere in `text`.
pub open spec fn occurs(text: Seq<char>, needle: Seq<char>) -> bool {
    exists|at: int| occurs_at(text, needle, at)
}

/// Whether `needle` stands in `text` at the position `at`.
fn matches_at(text: &Vec<char>, needle: &Vec<char>, at: usize) -> (found: bool)
    requires
        at + needle.len() <= text.len(),
    ensures
        found == occurs_at(text@, needle@, at as int),
{
    let mut i: usize = 0;
    while i < needle.len()
        invariant
            i <= needle.len(),
            at + needle.len() <= text.len(),
            forall|j: int| 0 <= j < i ==> text[at + j] == needle[j],
        decreases needle.len() - i,
    {
        if text[at + i] != needle[i] {
            assert(text@.subrange(at as int, at + needle.len())[i as int] != needle[i as int]);
            return false;
        }
        i += 1;
    }
    assert(text@.subrange(at as int, at + needle.len()) =~= needle@);
    true
}

/// Whether `needle` stands somewhere in `text`.
pub fn contains_text(text: &str, needle: &str) -> (found: bool)
    ensures
        found == occurs(text@, needle@),
{
    let letters = characters(text);
    let wanted = characters(needle);
    if wanted.len() > letters.len() {
        return false;
    }
    let last = letters.len() - wanted.len();
    let mut at: usize = 0;
    loop
        invariant
            at <= last,
            last == letters.len() - wanted.len(),
            letters@ == text@,
            wanted@ == needle@,
            forall|k: int| 0 <= k < at ==> !occurs_at(text@, needle@, k),
        decreases last - at,
    {
        if matches_at(&letters, &wanted, at) {
            return true;
        }
        if at == last {
            return false;
        }
        at += 1;
    }
}

} // verus!
