//! A keyed table over a vector: the shape of the contract's storage.
use vstd::prelude::*;

use crate::types::{Address, BytesN};

verus! {

/// A key that can be compared with another one.
pub trait Key: Sized {
    fn same(&self, other: &Self) -> (same: bool)
        ensures
            same == (*self == *other),
    ;
}

impl Key for u64 {
    fn same(&self, other: &Self) -> (same: bool) {
        *self == *other
    }
}

impl<const N: usize> Key for BytesN<N> {
    fn same(&self, other: &Self) -> (same: bool) {
        *self == *other
    }
}

impl Key for (BytesN<32>, Address) {
    fn same(&self, other: &Self) -> (same: bool) {
        self.0 == other.0 && self.1 == other.1
    }
}

/// A finite map from keys to values. No key occurs twice among the entries.
pub struct Table<K, V> {
    entries: Vec<(K, V)>,
}

impl<K, V> View for Table<K, V> {
    type V = Map<K, V>;

    closed spec fn view(&self) -> Map<K, V> {
        entries_map(self.entries@)
    }
}

spec fn has_key<K, V>(entries: Seq<(K, V)>, key: K) -> bool {
    exists|i: int| 0 <= i < entries.len() && #[trigger] entries[i].0 == key
}

spec fn entries_map<K, V>(entries: Seq<(K, V)>) -> Map<K, V> {
    Map::new(
        |key: K| has_key(entries, key),
        |key: K|
            entries[choose|i: int| 0 <= i < entries.len() && #[trigger] entries[i].0 == key].1,
    )
}

spec fn keys_distinct<K, V>(entries: Seq<(K, V)>) -> bool {
    forall|i: int, j: int|
        0 <= i < j < entries.len() ==> #[trigger] entries[i].0 != #[trigger] entries[j].0
}

proof fn lemma_entry<K, V>(entries: Seq<(K, V)>, i: int)
    requires
        keys_distinct(entries),
        0 <= i < entries.len(),
    ensures
        entries_map(entries).contains_key(entries[i].0),
        entries_map(entries)[entries[i].0] == entries[i].1,
{
}

impl<K, V> Table<K, V> {
    pub closed spec fn wf(&self) -> bool {
        keys_distinct(self.entries@)
    }

    pub fn new() -> (table: Self)
        ensures
            table.wf(),
            table@ == Map::<K, V>::empty(),
    {
        let table = Table { entries: Vec::new() };
        assert(table@ =~= Map::<K, V>::empty());
        table
    }
}

impl<K: Key, V: Copy> Table<K, V> {
    /// The value under `key`, if there is one.
    pub fn get(&self, key: &K) -> (value: Option<V>)
        requires
            self.wf(),
        ensures
            value == self@.get(*key),
    {
        let mut i: usize = 0;
        while i < self.entries.len()
            invariant
                i <= self.entries.len(),
                self.wf(),
                forall|j: int| 0 <= j < i ==> #[trigger] self.entries[j].0 != *key,
            decreases self.entries.len() - i,
        {
            if self.entries[i].0.same(key) {
                proof {
                    lemma_entry(self.entries@, i as int);
                }
                return Some(self.entries[i].1);
            }
            i += 1;
        }
        None
    }

    /// Puts `value` under `key`, in place of what was there.
    pub fn put(&mut self, key: K, value: V)
        requires
            old(self).wf(),
        ensures
            final(self).wf(),
            final(self)@ == old(self)@.insert(key, value),
    {
        let ghost before = self.entries@;
        let mut i: usize = 0;
        while i < self.entries.len()
            invariant
                i <= self.entries.len(),
                self.entries@ == before,
                before == old(self).entries@,
                keys_distinct(before),
                forall|j: int| 0 <= j < i ==> #[trigger] self.entries[j].0 != key,
            decreases self.entries.len() - i,
        {
            if self.entries[i].0.same(&key) {
                self.entries[i] = (key, value);
                proof {
                    lemma_replace(before, i as int, (key, value));
                }
                return ;
            }
            i += 1;
        }
        self.entries.push((key, value));
        proof {
            lemma_append(before, (key, value));
        }
    }
}

proof fn lemma_replace<K, V>(before: Seq<(K, V)>, i: int, entry: (K, V))
    requires
        keys_distinct(before),
        0 <= i < before.len(),
        before[i].0 == entry.0,
    ensures
        keys_distinct(before.update(i, entry)),
        entries_map(before.update(i, entry)) == entries_map(before).insert(entry.0, entry.1),
{
    let after = before.update(i, entry);
    assert forall|key: K| has_key(after, key) == has_key(before, key) by {
        if has_key(after, key) {
            let j = choose|j: int| 0 <= j < after.len() && #[trigger] after[j].0 == key;
            assert(before[j].0 == key);
        }
        if has_key(before, key) {
            let j = choose|j: int| 0 <= j < before.len() && #[trigger] before[j].0 == key;
            assert(after[j].0 == key);
        }
    }
    assert forall|key: K| has_key(after, key) implies entries_map(after)[key] == entries_map(
        before,
    ).insert(entry.0, entry.1)[key] by {
        let j = choose|j: int| 0 <= j < after.len() && #[trigger] after[j].0 == key;
        lemma_entry(after, j);
        lemma_entry(before, j);
    }
    lemma_entry(before, i);
    assert(entries_map(after) =~= entries_map(before).insert(entry.0, entry.1));
}

proof fn lemma_append<K, V>(before: Seq<(K, V)>, entry: (K, V))
    requires
        keys_distinct(before),
        !has_key(before, entry.0),
    ensures
        keys_distinct(before.push(entry)),
        entries_map(before.push(entry)) == entries_map(before).insert(entry.0, entry.1),
{
    let after = before.push(entry);
    assert forall|key: K| has_key(after, key) == (has_key(before, key) || key == entry.0) by {
        if has_key(before, key) {
            let j = choose|j: int| 0 <= j < before.len() && #[trigger] before[j].0 == key;
            assert(after[j].0 == key);
        }
        assert(after[before.len() as int].0 == entry.0);
    }
    assert forall|key: K| has_key(after, key) implies entries_map(after)[key] == entries_map(
        before,
    ).insert(entry.0, entry.1)[key] by {
        let j = choose|j: int| 0 <= j < after.len() && #[trigger] after[j].0 == key;
        lemma_entry(after, j);
        if j < before.len() {
            lemma_entry(before, j);
        }
    }
    assert(entries_map(after) =~= entries_map(before).insert(entry.0, entry.1));
}

} // verus!
