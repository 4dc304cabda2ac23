//! A map that is keyed by types.

use std::any::TypeId;

use vstd::prelude::*;

use crate::trusted::same_type;

verus! {

/// A map from types to values, kept as a list of entries that names no type twice.
pub struct TypeMap<V> {
    entries: Vec<(TypeId, V)>,
}

impl<V> View for TypeMap<V> {
    type V = Map<TypeId, V>;

    closed spec fn view(&self) -> Map<TypeId, V> {
        Map::new(
            |key: TypeId| exists|i: int| self.entry_at(key, i),
            |key: TypeId| self.entries@[choose|i: int| self.entry_at(key, i)].1,
        )
    }
}

impl<V> TypeMap<V> {
    /// The `i`-th entry is that of `key`.
    spec fn entry_at(&self, key: TypeId, i: int) -> bool {
        0 <= i < self.entries@.len() && self.entries@[i].0 == key
    }

    /// No type has two entries.
    pub closed spec fn wf(&self) -> bool {
        forall|i: int, j: int|
            0 <= i < self.entries@.len() && 0 <= j < self.entries@.len()
                && self.entries@[i].0 == self.entries@[j].0 ==> i == j
    }

    pub fn new() -> (map: Self)
        ensures
            map.wf(),
            map@ == Map::<TypeId, V>::empty(),
    {
        let map = TypeMap { entries: Vec::new() };
        assert(map@ =~= Map::<TypeId, V>::empty());
        map
    }

    /// The value of the `i`-th entry is the value of its type.
    proof fn lemma_entry(&self, key: TypeId, i: int)
        requires
            self.wf(),
            self.entry_at(key, i),
        ensures
            self@.contains_key(key),
            self@[key] == self.entries@[i].1,
    {
        let j = choose|j: int| self.entry_at(key, j);
        assert(self.entry_at(key, j));
        assert(self.entries@[i].0 == self.entries@[j].0);
    }

    /// To replace the value of the `i`-th entry is to replace the value of its type.
    proof fn lemma_replaced(&self, after: &Self, key: TypeId, i: int, value: V)
        requires
            self.wf(),
            self.entry_at(key, i),
            after.entries@ == self.entries@.update(i, (key, value)),
        ensures
            after.wf(),
            after@ == self@.insert(key, value),
    {
        assert forall|k: TypeId| #[trigger] self@.insert(key, value).dom().contains(k) implies
            after@.dom().contains(k) && after@[k] == self@.insert(key, value)[k] by {
            let j = if k == key { i } else { choose|j: int| self.entry_at(k, j) };
            assert(self.entry_at(k, j));
            assert(after.entry_at(k, j));
            self.lemma_entry(k, j);
            after.lemma_entry(k, j);
        }
        assert forall|k: TypeId| #[trigger] after@.dom().contains(k) implies
            self@.insert(key, value).dom().contains(k) by {
            let j = choose|j: int| after.entry_at(k, j);
            assert(self.entry_at(k, j));
        }
        assert(after@ =~= self@.insert(key, value));
    }

    /// To add an entry for a new type is to give it a value.
    proof fn lemma_pushed(&self, after: &Self, key: TypeId, value: V)
        requires
            self.wf(),
            forall|j: int| 0 <= j < self.entries@.len() ==> #[trigger] self.entries@[j].0 != key,
            after.entries@ == self.entries@.push((key, value)),
        ensures
            after.wf(),
            after@ == self@.insert(key, value),
    {
        let last = self.entries@.len() as int;
        assert forall|k: TypeId| #[trigger] self@.insert(key, value).dom().contains(k) implies
            after@.dom().contains(k) && after@[k] == self@.insert(key, value)[k] by {
            if k == key {
                assert(after.entry_at(k, last));
                after.lemma_entry(k, last);
            } else {
                let j = choose|j: int| self.entry_at(k, j);
                assert(self.entry_at(k, j));
                assert(after.entry_at(k, j));
                self.lemma_entry(k, j);
                after.lemma_entry(k, j);
            }
        }
        assert forall|k: TypeId| #[trigger] after@.dom().contains(k) && k != key implies
            self@.insert(key, value).dom().contains(k) by {
            let j = choose|j: int| after.entry_at(k, j);
            assert(self.entry_at(k, j));
        }
        assert(after@ =~= self@.insert(key, value));
    }

    /// To take the entry of a type away is to take its value away.
    proof fn lemma_removed(&self, after: &Self, key: TypeId, i: int)
        requires
            self.wf(),
            self.entry_at(key, i),
            after.entries@ == self.entries@.remove(i),
        ensures
            after.wf(),
            after@ == self@.remove(key),
    {
        assert forall|j: int| 0 <= j < after.entries@.len() implies #[trigger] after.entries@[j]
            == self.entries@[if j < i { j } else { j + 1 }] by {}
        assert forall|k: TypeId| #[trigger] self@.remove(key).dom().contains(k) implies
            after@.dom().contains(k) && after@[k] == self@[k] by {
            let j = choose|j: int| self.entry_at(k, j);
            assert(self.entry_at(k, j));
            let m = if j < i { j } else { j - 1 };
            assert(after.entries@[m] == self.entries@[j]);
            assert(after.entry_at(k, m));
            self.lemma_entry(k, j);
            after.lemma_entry(k, m);
        }
        assert forall|k: TypeId| #[trigger] after@.dom().contains(k) implies
            self@.remove(key).dom().contains(k) by {
            let j = choose|j: int| after.entry_at(k, j);
            let m = if j < i { j } else { j + 1 };
            assert(after.entries@[j] == self.entries@[m]);
            assert(self.entry_at(k, m));
            assert(self.entries@[m].0 == k && self.entries@[i].0 == key && m != i);
        }
        assert(after@ =~= self@.remove(key));
    }

    /// Where the entry of a type stands.
    fn position(&self, key: &TypeId) -> (found: Option<usize>)
        requires
            self.wf(),
        ensures
            match found {
                Some(i) => {
                    &&& self.entry_at(*key, i as int)
                    &&& self@.contains_key(*key)
                    &&& self@[*key] == self.entries@[i as int].1
                },
                None => !self@.contains_key(*key),
            },
    {
        let mut i: usize = 0;
        while i < self.entries.len()
            invariant
                self.wf(),
                i <= self.entries@.len(),
                forall|j: int| 0 <= j < i ==> self.entries@[j].0 != *key,
            decreases self.entries@.len() - i,
        {
            if same_type(&self.entries[i].0, key) {
                proof {
                    self.lemma_entry(*key, i as int);
                }
                return Some(i);
            }
            i += 1;
        }
        None
    }

    pub fn contains_key(&self, key: &TypeId) -> (contains: bool)
        requires
            self.wf(),
        ensures
            contains == self@.contains_key(*key),
    {
        self.position(key).is_some()
    }

    pub fn get(&self, key: &TypeId) -> (value: Option<&V>)
        requires
            self.wf(),
        ensures
            match value {
                Some(v) => self@.contains_key(*key) && *v == self@[*key],
                None => !self@.contains_key(*key),
            },
    {
        match self.position(key) {
            Some(i) => Some(&self.entries[i].1),
            None => None,
        }
    }

    pub fn get_mut(&mut self, key: &TypeId) -> (value: Option<&mut V>)
        requires
            old(self).wf(),
        ensures
            final(self).wf(),
            match value {
                Some(v) => {
                    &&& old(self)@.contains_key(*key)
                    &&& *v == old(self)@[*key]
                    &&& final(self)@ == old(self)@.insert(*key, *final(v))
                },
                None => !old(self)@.contains_key(*key) && *final(self) == *old(self),
            },
    {
        match self.position(key) {
            Some(i) => {
                proof {
                    assert forall|after: Self, value: V|
                        after.entries@ == self.entries@.update(i as int, (*key, value)) implies
                        after.wf() && #[trigger] after@ == #[trigger] self@.insert(*key, value) by {
                        self.lemma_replaced(&after, *key, i as int, value);
                    }
                }
                Some(&mut self.entries[i].1)
            },
            None => None,
        }
    }

    /// Gives a type a value, in place of the one it has, if any.
    pub fn insert(&mut self, key: TypeId, value: V)
        requires
            old(self).wf(),
        ensures
            final(self).wf(),
            final(self)@ == old(self)@.insert(key, value),
    {
        match self.position(&key) {
            Some(i) => {
                self.entries[i].1 = value;
                proof {
                    old(self).lemma_replaced(self, key, i as int, value);
                }
            },
            None => {
                proof {
                    assert forall|j: int| 0 <= j < self.entries@.len() implies #[trigger]
                        self.entries@[j].0 != key by {
                        if self.entries@[j].0 == key {
                            assert(self.entry_at(key, j));
                        }
                    }
                }
                self.entries.push((key, value));
                proof {
                    old(self).lemma_pushed(self, key, value);
                }
            },
        }
    }

    /// Takes the value of a type away.
    pub fn remove(&mut self, key: &TypeId) -> (removed: Option<V>)
        requires
            old(self).wf(),
        ensures
            final(self).wf(),
            final(self)@ == old(self)@.remove(*key),
            match removed {
                Some(v) => old(self)@.contains_key(*key) && v == old(self)@[*key],
                None => !old(self)@.contains_key(*key),
            },
    {
        match self.position(key) {
            Some(i) => {
                let entry = self.entries.remove(i);
                proof {
                    old(self).lemma_removed(self, *key, i as int);
                }
                Some(entry.1)
            },
            None => {
                assert(self@.remove(*key) =~= self@);
                None
            },
        }
    }
}

} // verus!
