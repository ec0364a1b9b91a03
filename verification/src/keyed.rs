//! Small maps from texts to values, kept as lists of entries in the order of their making.
use vstd::prelude::*;

use crate::text;

verus! {

/// No key occurs twice.
pub open spec fn distinct_keys<T>(entries: Seq<(Seq<char>, T)>) -> bool {
    forall|i: int, j: int|
        0 <= i < j < entries.len() ==> #[trigger] entries[i].0 != #[trigger] entries[j].0
}

/// The position of the first entry for `key` from `i` on, or the number of entries where there is
/// none.
pub open spec fn key_position<T>(entries: Seq<(Seq<char>, T)>, key: Seq<char>, i: int) -> int
    decreases entries.len() - i,
{
    if 0 <= i < entries.len() && entries[i].0 != key {
        key_position(entries, key, i + 1)
    } else {
        i
    }
}

/// The value for `key`.
pub open spec fn lookup<T>(entries: Seq<(Seq<char>, T)>, key: Seq<char>) -> Option<T> {
    let at = key_position(entries, key, 0);
    if at < entries.len() {
        Some(entries[at].1)
    } else {
        None
    }
}

/// The entries with `value` for `key`: in place of the old value, or else at the end.
pub open spec fn with_entry<T>(
    entries: Seq<(Seq<char>, T)>,
    key: Seq<char>,
    value: T,
) -> Seq<(Seq<char>, T)> {
    let at = key_position(entries, key, 0);
    if at < entries.len() {
        entries.update(at, (key, value))
    } else {
        entries.push((key, value))
    }
}

/// `key_position` finds an entry for the key with no other before it, or the end.
pub proof fn lemma_key_position<T>(entries: Seq<(Seq<char>, T)>, key: Seq<char>, i: int)
    requires
        0 <= i <= entries.len(),
    ensures
        i <= key_position(entries, key, i) <= entries.len(),
        key_position(entries, key, i) < entries.len() ==> entries[key_position(entries, key, i)].0
            == key,
        forall|k: int| i <= k < key_position(entries, key, i) ==> entries[k].0 != key,
    decreases entries.len() - i,
{
    if i < entries.len() && entries[i].0 != key {
        lemma_key_position(entries, key, i + 1);
    }
}

/// A map gives back what was last put in for a key, keeps what it has for every other key, and
/// keeps its keys distinct.
pub proof fn law_put_then_get<T>(
    entries: Seq<(Seq<char>, T)>,
    key: Seq<char>,
    value: T,
    other: Seq<char>,
)
    ensures
        lookup(with_entry(entries, key, value), key) == Some(value),
        other != key ==> lookup(with_entry(entries, key, value), other) == lookup(entries, other),
        distinct_keys(entries) ==> distinct_keys(with_entry(entries, key, value)),
{
    let after = with_entry(entries, key, value);
    lemma_key_position(entries, key, 0);
    lemma_key_position(after, key, 0);
    lemma_key_position(entries, other, 0);
    lemma_key_position(after, other, 0);
    let at = key_position(entries, key, 0);
    assert(after[at] == (key, value));
    let was = key_position(entries, other, 0);
    let is = key_position(after, other, 0);
    if other != key {
        if was < entries.len() {
            assert(after[was] == entries[was]);
        }
        if is < after.len() {
            assert(after[is] == entries[is]);
        }
    }
}

/// What is found for a key is what the first entry for it says; nothing is found where there is none.
pub proof fn law_lookup_finds_the_first<T>(entries: Seq<(Seq<char>, T)>, key: Seq<char>)
    ensures
        match lookup(entries, key) {
            Some(value) => exists|i: int|
                {
                    &&& 0 <= i < entries.len()
                    &&& #[trigger] entries[i] == (key, value)
                    &&& forall|k: int| 0 <= k < i ==> (#[trigger] entries[k]).0 != key
                },
            None => forall|i: int| 0 <= i < entries.len() ==> (#[trigger] entries[i]).0 != key,
        },
{
    lemma_key_position(entries, key, 0);
    let i = key_position(entries, key, 0);
    if i < entries.len() {
        assert(entries[i] == (key, entries[i].1));
    }
}

/// With distinct keys, what an entry says of its key is what is found for that key.
pub proof fn law_entries_are_found<T>(entries: Seq<(Seq<char>, T)>, i: int)
    requires
        distinct_keys(entries),
        0 <= i < entries.len(),
    ensures
        lookup(entries, entries[i].0) == Some(entries[i].1),
{
    lemma_key_position(entries, entries[i].0, 0);
}

fn find<T: DeepView>(entries: &Vec<(String, T)>, key: &str) -> (r: usize)
    ensures
        r <= entries.len(),
        r == key_position(entries.deep_view(), key@, 0),
{
    let mut i: usize = 0;
    while i < entries.len() && !text::same(entries[i].0.as_str(), key)
        invariant
            i <= entries.len(),
            key_position(entries.deep_view(), key@, 0) == key_position(
                entries.deep_view(),
                key@,
                i as int,
            ),
        decreases entries.len() - i,
    {
        assert(entries.deep_view()[i as int].0 == entries[i as int].0@);
        i = i + 1;
    }
    proof {
        if i < entries.len() {
            assert(entries.deep_view()[i as int].0 == entries[i as int].0@);
        }
    }
    i
}

/// Finds the value for `key`.
pub fn get<'a, T: DeepView>(entries: &'a Vec<(String, T)>, key: &str) -> (r: Option<&'a T>)
    ensures
        match r {
            Some(value) => lookup(entries.deep_view(), key@) == Some(value.deep_view()),
            None => lookup(entries.deep_view(), key@) is None,
        },
{
    let at = find(entries, key);
    if at < entries.len() {
        Some(&entries[at].1)
    } else {
        None
    }
}

/// Puts in `value` for `key`.
pub fn put<T: DeepView>(entries: &mut Vec<(String, T)>, key: String, value: T)
    ensures
        final(entries).deep_view() == with_entry(
            old(entries).deep_view(),
            key@,
            value.deep_view(),
        ),
{
    let at = find(entries, key.as_str());
    let ghost before = entries.deep_view();
    if at < entries.len() {
        entries.set(at, (key, value));
        assert(entries.deep_view() =~= before.update(at as int, (key@, value.deep_view())));
    } else {
        entries.push((key, value));
        assert(entries.deep_view() =~= before.push((key@, value.deep_view())));
    }
}

} // verus!
