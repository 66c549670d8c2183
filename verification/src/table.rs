//! A small keyed table: what the stores keep their records in.
use vstd::prelude::*;
use crate::identity::Identity;

verus! {

/// A key of a table: a plain value that can be compared at run time.
pub trait Key: Copy {
    /// Whether `self` and `other` are the same key.
    fn same_key(&self, other: &Self) -> (same: bool)
        ensures
            same == (*self == *other),
    ;
}

impl Key for u64 {
    fn same_key(&self, other: &u64) -> (same: bool) {
        *self == *other
    }
}

impl Key for Identity {
    fn same_key(&self, other: &Identity) -> (same: bool) {
        self.same(other)
    }
}

/// A finite map from keys to values, kept as a list in which no key stands twice.
pub struct Table<K, V> {
    entries: Vec<(K, V)>,
}

impl<K: Key, V> Table<K, V> {
    /// No key stands twice.
    pub closed spec fn wf(&self) -> bool {
        forall|i: int, j: int|
            0 <= i < j < self.entries@.len() ==> (#[trigger] self.entries@[i]).0 != (
            #[trigger] self.entries@[j]).0
    }

    /// Whether the entry at position `i` is the one of `key`.
    spec fn at(&self, i: int, key: K) -> bool {
        0 <= i < self.entries@.len() && self.entries@[i].0 == key
    }

    /// The map that the table stands for.
    pub closed spec fn view(&self) -> Map<K, V> {
        Map::new(
            |key: K| exists|i: int| self.at(i, key),
            |key: K| self.entries@[choose|i: int| self.at(i, key)].1,
        )
    }

    /// The empty table.
    pub fn new() -> (table: Self)
        ensures
            table.wf(),
            table@ == Map::<K, V>::empty(),
    {
        let table = Table { entries: Vec::new() };
        assert(table@ =~= Map::<K, V>::empty());
        table
    }

    /// The position of `key`, if it has an entry.
    fn position(&self, key: &K) -> (found: Option<usize>)
        ensures
            match found {
                Some(i) => self.at(i as int, *key),
                None => forall|i: int| !self.at(i, *key),
            },
    {
        let mut i: usize = 0;
        while i < self.entries.len()
            invariant
                i <= self.entries@.len(),
                forall|j: int| 0 <= j < i ==> !self.at(j, *key),
            decreases self.entries@.len() - i,
        {
            if self.entries[i].0.same_key(key) {
                return Some(i);
            }
            i += 1;
        }
        None
    }

    /// The value kept under `key`, if there is one.
    pub fn get(&self, key: &K) -> (value: Option<&V>)
        requires
            self.wf(),
        ensures
            match value {
                Some(v) => self@.contains_key(*key) && self@[*key] == *v,
                None => !self@.contains_key(*key),
            },
    {
        match self.position(key) {
            Some(i) => {
                assert(self.at(i as int, *key));
                let ghost chosen = choose|j: int| self.at(j, *key);
                assert(chosen == i);
                Some(&self.entries[i].1)
            },
            None => None,
        }
    }

    /// Keeps `value` under `key`, in place of what was kept there before.
    pub fn put(&mut self, key: K, value: V)
        requires
            old(self).wf(),
        ensures
            final(self).wf(),
            final(self)@ == old(self)@.insert(key, value),
    {
        let ghost before = *self;
        match self.position(&key) {
            Some(i) => {
                self.entries.set(i, (key, value));
                assert forall|k: K, j: int| #[trigger] self.at(j, k) <==> before.at(j, k) by {}
                assert forall|a: int, b: int| 0 <= a < b < self.entries@.len() implies (
                #[trigger] self.entries@[a]).0 != (#[trigger] self.entries@[b]).0 by {
                    assert(before.entries@[a].0 != before.entries@[b].0);
                }
            },
            None => {
                self.entries.push((key, value));
                assert forall|k: K, j: int| #[trigger] self.at(j, k) <==> (before.at(j, k) || (j
                    == before.entries@.len() && k == key)) by {}
                assert forall|a: int, b: int| 0 <= a < b < self.entries@.len() implies (
                #[trigger] self.entries@[a]).0 != (#[trigger] self.entries@[b]).0 by {
                    if b < before.entries@.len() {
                        assert(before.entries@[a].0 != before.entries@[b].0);
                    } else {
                        assert(!before.at(a, key));
                    }
                }
                assert(self.at(before.entries@.len() as int, key));
            },
        }
        assert forall|k: K| self@.contains_key(k) <==> before@.insert(key, value).contains_key(k) by {
            if self@.contains_key(k) {
                let j = choose|j: int| self.at(j, k);
                assert(self.at(j, k));
                if k != key {
                    assert(before.at(j, k));
                }
            }
            if before@.contains_key(k) {
                let j = choose|j: int| before.at(j, k);
                assert(before.at(j, k));
                assert(self.at(j, k));
            }
            if k == key {
                assert(exists|j: int| self.at(j, k));
            }
        }
        assert forall|k: K| self@.contains_key(k) implies self@[k] == before@.insert(key, value)[k] by {
            let j = choose|j: int| self.at(j, k);
            assert(self.at(j, k));
            if k != key {
                let b = choose|b: int| before.at(b, k);
                assert(before.at(j, k));
                assert(before.at(b, k));
                assert(j == b);
            }
        }
        assert(self@ =~= before@.insert(key, value));
    }
}

} // verus!
