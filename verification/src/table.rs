//! A small keyed store: the records of one kind, each under its own key.

use vstd::prelude::*;
use crate::address::Address;

verus! {

/// A key that can be compared at run time, in agreement with equality in
/// specifications.
pub trait Key: Sized + Copy {
    fn same(&self, other: &Self) -> (r: bool)
        ensures
            r == (*self == *other),
    ;
}

impl Key for Address {
    fn same(&self, other: &Address) -> (r: bool) {
        *self == *other
    }
}

/// One record of a table with its key.
#[derive(Debug)]
pub struct Entry<K, V> {
    pub key: K,
    pub value: V,
}

/// Records under distinct keys. Its view is the map from each key to its record.
#[derive(Debug)]
pub struct Table<K, V> {
    entries: Vec<Entry<K, V>>,
}

impl<K: Key, V: Copy> Table<K, V> {
    /// No key occurs twice.
    pub closed spec fn wf(&self) -> bool {
        forall|i: int, j: int|
            0 <= i < self.entries@.len() && 0 <= j < self.entries@.len() && i != j
                ==> self.entries@[i].key != self.entries@[j].key
    }

    /// Whether `key` stands at index `i`.
    spec fn at(&self, key: K, i: int) -> bool {
        0 <= i < self.entries@.len() && self.entries@[i].key == key
    }

    /// The map from each key to its record.
    pub closed spec fn view(&self) -> Map<K, V> {
        Map::new(
            |key: K| exists|i: int| self.at(key, i),
            |key: K| self.entries@[choose|i: int| self.at(key, i)].value,
        )
    }

    /// The records in the order in which their keys came into the table.
    pub closed spec fn values(&self) -> Seq<V> {
        Seq::new(self.entries@.len(), |i: int| self.entries@[i].value)
    }

    /// The place of the record under `key` among `values()`.
    pub closed spec fn index_of(&self, key: K) -> int {
        choose|i: int| self.at(key, i)
    }

    /// The record under a key stands at its place among the values.
    pub proof fn lemma_index_of(&self, key: K)
        requires
            self.wf(),
            self@.dom().contains(key),
        ensures
            0 <= self.index_of(key) < self.values().len(),
            self.values()[self.index_of(key)] == self@[key],
    {
    }

    proof fn lemma_at(&self, key: K, i: int)
        requires
            self.wf(),
            self.at(key, i),
        ensures
            self@.dom().contains(key),
            self@[key] == self.entries@[i].value,
            self.index_of(key) == i,
    {
        let j = choose|j: int| self.at(key, j);
        assert(i == j);
    }

    /// A table without records.
    pub fn new() -> (r: Self)
        ensures
            r.wf(),
            r@ == Map::<K, V>::empty(),
            r.values() == Seq::<V>::empty(),
    {
        let r = Table { entries: Vec::new() };
        assert(r@ =~= Map::<K, V>::empty());
        assert(r.values() =~= Seq::<V>::empty());
        r
    }

    /// The index at which `key` stands, if it is there.
    fn position(&self, key: &K) -> (r: Option<usize>)
        requires
            self.wf(),
        ensures
            match r {
                Some(i) => self.at(*key, i as int),
                None => !self@.dom().contains(*key),
            },
    {
        let mut i: usize = 0;
        while i < self.entries.len()
            invariant
                i <= self.entries@.len(),
                forall|j: int| 0 <= j < i ==> self.entries@[j].key != *key,
            decreases self.entries@.len() - i,
        {
            if self.entries[i].key.same(key) {
                return Some(i);
            }
            i += 1;
        }
        assert(!self@.dom().contains(*key)) by {
            if self@.dom().contains(*key) {
                let j = choose|j: int| self.at(*key, j);
                assert(self.entries@[j].key == *key);
            }
        }
        None
    }

    /// The record under `key`, if there is one.
    pub fn get(&self, key: &K) -> (r: Option<V>)
        requires
            self.wf(),
        ensures
            r == if self@.dom().contains(*key) {
                Some(self@[*key])
            } else {
                None
            },
    {
        match self.position(key) {
            Some(i) => {
                proof {
                    self.lemma_at(*key, i as int);
                }
                Some(self.entries[i].value)
            },
            None => None,
        }
    }

    /// Whether there is a record under `key`.
    pub fn contains_key(&self, key: &K) -> (r: bool)
        requires
            self.wf(),
        ensures
            r == self@.dom().contains(*key),
    {
        match self.position(key) {
            Some(i) => {
                proof {
                    self.lemma_at(*key, i as int);
                }
                true
            },
            None => false,
        }
    }

    /// Puts `value` under `key`, in place of the record that was there, if any.
    pub fn insert(&mut self, key: K, value: V)
        requires
            old(self).wf(),
        ensures
            final(self).wf(),
            final(self)@ == old(self)@.insert(key, value),
            final(self).values() == if old(self)@.dom().contains(key) {
                old(self).values().update(old(self).index_of(key), value)
            } else {
                old(self).values().push(value)
            },
    {
        let ghost before = *self;
        match self.position(&key) {
            Some(i) => {
                proof {
                    before.lemma_at(key, i as int);
                }
                self.entries[i] = Entry { key, value };
                assert(self.values() =~= before.values().update(i as int, value));
                assert forall|k: K| #[trigger] self@.dom().contains(k) == before@.insert(
                    key,
                    value,
                ).dom().contains(k) by {
                    if self@.dom().contains(k) {
                        let j = choose|j: int| self.at(k, j);
                        assert(before.at(k, j));
                    }
                    if before@.dom().contains(k) {
                        let j = choose|j: int| before.at(k, j);
                        assert(self.at(k, j));
                    }
                    if k == key {
                        assert(self.at(k, i as int));
                    }
                }
                assert forall|k: K| #[trigger] self@.dom().contains(k) implies self@[k]
                    == before@.insert(key, value)[k] by {
                    let j = choose|j: int| self.at(k, j);
                    self.lemma_at(k, j);
                    if k != key {
                        assert(before.at(k, j));
                        before.lemma_at(k, j);
                    } else {
                        assert(j == i);
                    }
                }
                assert(self@ =~= before@.insert(key, value));
            },
            None => {
                self.entries.push(Entry { key, value });
                let ghost n = before.entries@.len() as int;
                assert(self.values() =~= before.values().push(value));
                assert(self.wf()) by {
                    assert forall|i: int, j: int|
                        0 <= i < self.entries@.len() && 0 <= j < self.entries@.len() && i != j
                        implies self.entries@[i].key != self.entries@[j].key by {
                        if i < n && j < n {
                            assert(before.entries@[i].key != before.entries@[j].key);
                        } else if i < n {
                            assert(before.at(self.entries@[i].key, i));
                        } else {
                            assert(before.at(self.entries@[j].key, j));
                        }
                    }
                }
                assert forall|k: K| #[trigger] self@.dom().contains(k) == before@.insert(
                    key,
                    value,
                ).dom().contains(k) by {
                    if self@.dom().contains(k) {
                        let j = choose|j: int| self.at(k, j);
                        if j < n {
                            assert(before.at(k, j));
                        }
                    }
                    if before@.dom().contains(k) {
                        let j = choose|j: int| before.at(k, j);
                        assert(self.at(k, j));
                    }
                    if k == key {
                        assert(self.at(k, n));
                    }
                }
                assert forall|k: K| #[trigger] self@.dom().contains(k) implies self@[k]
                    == before@.insert(key, value)[k] by {
                    let j = choose|j: int| self.at(k, j);
                    self.lemma_at(k, j);
                    if k != key {
                        assert(before.at(k, j));
                        before.lemma_at(k, j);
                    } else {
                        assert(self.at(k, n));
                    }
                }
                assert(self@ =~= before@.insert(key, value));
            },
        }
    }

    /// Takes away the record under `key`, if there is one.
    pub fn remove(&mut self, key: &K)
        requires
            old(self).wf(),
        ensures
            final(self).wf(),
            final(self)@ == old(self)@.remove(*key),
            final(self).values() == if old(self)@.dom().contains(*key) {
                old(self).values().remove(old(self).index_of(*key))
            } else {
                old(self).values()
            },
    {
        let ghost before = *self;
        match self.position(key) {
            Some(i) => {
                proof {
                    before.lemma_at(*key, i as int);
                }
                self.entries.remove(i);
                assert(self.entries@ == before.entries@.remove(i as int));
                assert(self.values() =~= before.values().remove(i as int));
                assert(self.wf()) by {
                    assert forall|a: int, b: int|
                        0 <= a < self.entries@.len() && 0 <= b < self.entries@.len() && a != b
                        implies self.entries@[a].key != self.entries@[b].key by {
                        let a0 = if a < i { a } else { a + 1 };
                        let b0 = if b < i { b } else { b + 1 };
                        assert(before.entries@[a0].key != before.entries@[b0].key);
                    }
                }
                assert forall|k: K| #[trigger] self@.dom().contains(k) == before@.remove(
                    *key,
                ).dom().contains(k) by {
                    if self@.dom().contains(k) {
                        let j = choose|j: int| self.at(k, j);
                        let j0 = if j < i { j } else { j + 1 };
                        assert(before.at(k, j0));
                        assert(before.entries@[j0].key != before.entries@[i as int].key);
                    }
                    if before@.dom().contains(k) && k != *key {
                        let j = choose|j: int| before.at(k, j);
                        let j1 = if j < i { j } else { j - 1 };
                        assert(self.at(k, j1));
                    }
                }
                assert forall|k: K| #[trigger] self@.dom().contains(k) implies self@[k]
                    == before@.remove(*key)[k] by {
                    let j = choose|j: int| self.at(k, j);
                    self.lemma_at(k, j);
                    let j0 = if j < i { j } else { j + 1 };
                    assert(before.at(k, j0));
                    before.lemma_at(k, j0);
                }
                assert(self@ =~= before@.remove(*key));
            },
            None => {
                assert(self@ =~= before@.remove(*key));
            },
        }
    }

    /// A copy of the table, to work on while the table itself stays as it is.
    pub fn snapshot(&self) -> (r: Self)
        requires
            self.wf(),
        ensures
            r.wf(),
            r@ == self@,
            r.values() == self.values(),
    {
        let mut entries: Vec<Entry<K, V>> = Vec::new();
        let mut i: usize = 0;
        while i < self.entries.len()
            invariant
                i <= self.entries@.len(),
                entries@ == self.entries@.take(i as int),
            decreases self.entries@.len() - i,
        {
            entries.push(Entry { key: self.entries[i].key, value: self.entries[i].value });
            assert(entries@ =~= self.entries@.take(i + 1));
            i += 1;
        }
        assert(entries@ =~= self.entries@);
        let r = Table { entries };
        assert(forall|key: K, j: int| r.at(key, j) == self.at(key, j));
        assert(r@ =~= self@);
        assert(r.values() =~= self.values());
        r
    }
}

} // verus!
