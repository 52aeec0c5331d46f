//! A small map from strings to strings that keeps its entries in the order of first entry.

use crate::text::str_eq;
use vstd::prelude::*;

verus! {

/// One entry of a [`StrMap`].
#[derive(Debug, Clone)]
pub struct StrEntry {
    pub key: String,
    pub value: String,
}

pub ghost struct StrEntryView {
    pub key: Seq<char>,
    pub value: Seq<char>,
}

impl DeepView for StrEntry {
    type V = StrEntryView;

    open spec fn deep_view(&self) -> StrEntryView {
        StrEntryView { key: self.key@, value: self.value@ }
    }
}

/// The index of the first entry at or behind `from` whose key is `key`.
pub open spec fn map_index_from(entries: Seq<StrEntryView>, key: Seq<char>, from: int) -> Option<
    int,
>
    decreases entries.len() - from,
{
    if from < 0 || from >= entries.len() {
        None
    } else if entries[from].key == key {
        Some(from)
    } else {
        map_index_from(entries, key, from + 1)
    }
}

/// The value entered under `key`.
pub open spec fn map_get(entries: Seq<StrEntryView>, key: Seq<char>) -> Option<Seq<char>> {
    match map_index_from(entries, key, 0) {
        Some(k) => Some(entries[k].value),
        None => None,
    }
}

/// The entries after `value` is entered under `key`: it takes the place of the value that
/// stood under that key, and comes last where there was none.
pub open spec fn map_insert(entries: Seq<StrEntryView>, key: Seq<char>, value: Seq<char>) -> Seq<
    StrEntryView,
> {
    match map_index_from(entries, key, 0) {
        Some(k) => entries.update(k, StrEntryView { key, value }),
        None => entries.push(StrEntryView { key, value }),
    }
}

/// A map from strings to strings.
#[derive(Debug, Clone)]
pub struct StrMap {
    entries: Vec<StrEntry>,
}

impl DeepView for StrMap {
    type V = Seq<StrEntryView>;

    closed spec fn deep_view(&self) -> Seq<StrEntryView> {
        self.entries.deep_view()
    }
}

impl StrMap {
    /// An empty map.
    pub fn new() -> (r: Self)
        ensures
            r.deep_view() == Seq::<StrEntryView>::empty(),
    {
        let r = StrMap { entries: Vec::new() };
        r
    }

    fn index_of(&self, key: &str) -> (r: Option<usize>)
        ensures
            match r {
                Some(k) => map_index_from(self.deep_view(), key@, 0) == Some(k as int) && k
                    < self.entries.len(),
                None => map_index_from(self.deep_view(), key@, 0) is None,
            },
    {
        let mut i: usize = 0;
        while i < self.entries.len()
            invariant
                i <= self.entries.len(),
                map_index_from(self.entries.deep_view(), key@, i as int) == map_index_from(
                    self.entries.deep_view(),
                    key@,
                    0,
                ),
            decreases self.entries.len() - i,
        {
            if str_eq(self.entries[i].key.as_str(), key) {
                return Some(i);
            }
            i += 1;
        }
        None
    }

    /// Enters `value` under `key`.
    pub fn insert(&mut self, key: String, value: String)
        ensures
            final(self).deep_view() == map_insert(old(self).deep_view(), key@, value@),
    {
        match self.index_of(key.as_str()) {
            Some(k) => {
                self.entries.set(k, StrEntry { key, value });
            },
            None => {
                self.entries.push(StrEntry { key, value });
            },
        }
    }

    /// The value entered under `key`.
    pub fn get(&self, key: &str) -> (r: Option<&String>)
        ensures
            r.deep_view() == map_get(self.deep_view(), key@),
    {
        match self.index_of(key) {
            Some(k) => Some(&self.entries[k].value),
            None => None,
        }
    }

    /// Whether a value is entered under `key`.
    pub fn contains_key(&self, key: &str) -> (r: bool)
        ensures
            r == map_get(self.deep_view(), key@).is_some(),
    {
        self.index_of(key).is_some()
    }

    /// Number of entries.
    pub fn len(&self) -> (n: usize)
        ensures
            n == self.deep_view().len(),
    {
        self.entries.len()
    }

    /// The entry at position `index`.
    pub fn entry(&self, index: usize) -> (r: &StrEntry)
        requires
            index < self.deep_view().len(),
        ensures
            r.deep_view() == self.deep_view()[index as int],
    {
        &self.entries[index]
    }
}

/// Whether no two entries stand under one key.
pub open spec fn map_keys_distinct(entries: Seq<StrEntryView>) -> bool {
    forall|i: int, j: int|
        0 <= i < j < entries.len() ==> (#[trigger] entries[i]).key != (#[trigger] entries[j]).key
}

proof fn lemma_map_keys_index(entries: Seq<StrEntryView>, key: Seq<char>, from: int)
    requires
        0 <= from,
    ensures
        match map_index_from(entries, key, from) {
            Some(k) => from <= k < entries.len() && entries[k].key == key && forall|i: int|
                from <= i < k ==> (#[trigger] entries[i]).key != key,
            None => forall|i: int| from <= i < entries.len() ==> (#[trigger] entries[i]).key != key,
        },
    decreases entries.len() - from,
{
    if from < entries.len() && entries[from].key != key {
        lemma_map_keys_index(entries, key, from + 1);
    }
}

proof fn lemma_map_keys_index_is(entries: Seq<StrEntryView>, key: Seq<char>, from: int, k: int)
    requires
        0 <= from <= k < entries.len(),
        entries[k].key == key,
        forall|i: int| from <= i < k ==> (#[trigger] entries[i]).key != key,
    ensures
        map_index_from(entries, key, from) == Some(k),
    decreases k - from,
{
    if from < k {
        lemma_map_keys_index_is(entries, key, from + 1, k);
    }
}

/// A key occurs once: entering keeps the keys distinct.
pub proof fn law_map_keys_occur_once(entries: Seq<StrEntryView>, key: Seq<char>, value: Seq<char>)
    requires
        map_keys_distinct(entries),
    ensures
        map_keys_distinct(map_insert(entries, key, value)),
{
    let after = map_insert(entries, key, value);
    lemma_map_keys_index(entries, key, 0);
    assert forall|i: int, j: int| 0 <= i < j < after.len() implies (#[trigger] after[i]).key != (
    #[trigger] after[j]).key by {
        match map_index_from(entries, key, 0) {
            Some(k) => {
                assert(after[i].key == entries[i].key);
                assert(after[j].key == entries[j].key);
            },
            None => {
                assert(after[i] == entries[i]);
                if j < entries.len() {
                    assert(after[j] == entries[j]);
                }
            },
        }
    }
}

/// What was entered is found under its key.
pub proof fn law_map_keys_entered_is_found(entries: Seq<StrEntryView>, key: Seq<char>, value: Seq<char>)
    ensures
        map_get(map_insert(entries, key, value), key) == Some(value),
{
    let after = map_insert(entries, key, value);
    lemma_map_keys_index(entries, key, 0);
    match map_index_from(entries, key, 0) {
        Some(k) => {
            assert forall|i: int| 0 <= i < k implies (#[trigger] after[i]).key != key by {
                assert(after[i] == entries[i]);
            }
            lemma_map_keys_index_is(after, key, 0, k);
        },
        None => {
            assert forall|i: int| 0 <= i < entries.len() implies (#[trigger] after[i]).key
                != key by {
                assert(after[i] == entries[i]);
            }
            lemma_map_keys_index_is(after, key, 0, entries.len() as int);
        },
    }
}

} // verus!
