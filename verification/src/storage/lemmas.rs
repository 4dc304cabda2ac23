//! What the parts of a storage imply for the whole.

use std::any::TypeId;

use vstd::prelude::*;

use super::EcstaticStorage;
use crate::component::{values_of, Empty, Slot};
use crate::model::{lemma_enumerated, lemma_len_of_indices};
use crate::storable::Storable;
use crate::trusted::{allocated, shrunk, type_id};

verus! {

impl EcstaticStorage {
    /// To keep the stores of the other types, and then to keep them again, is to keep them.
    pub(super) proof fn lemma_same_others(&self, between: &Self, before: &Self, key: TypeId)
        requires
            forall|k: TypeId| k != key ==> #[trigger] self.same_store(between, k),
            forall|k: TypeId| k != key ==> #[trigger] between.same_store(before, k),
        ensures
            forall|k: TypeId| k != key ==> #[trigger] self.same_store(before, k),
    {
        assert forall|k: TypeId| k != key implies #[trigger] self.same_store(before, k) by {
            assert(self.same_store(between, k));
            assert(between.same_store(before, k));
        }
    }

    /// To give a type a vector of slots changes nothing for the other types.
    pub(super) proof fn lemma_only_initialized(&self, before: &Self, key: TypeId)
        requires
            self.indices == before.indices,
            self.lengths == before.lengths,
            self.components@.dom() == before.components@.dom().insert(key),
            forall|k: TypeId| #[trigger] self.slots(k) == before.slots(k),
        ensures
            forall|k: TypeId| k != key ==> #[trigger] self.same_store(before, k),
    {
        assert forall|k: TypeId| k != key implies #[trigger] self.same_store(before, k) by {
            assert(self.slots(k) == before.slots(k));
            assert(self.components@.dom().contains(k) == before.components@.dom().contains(k));
        }
    }

    /// A storage that keeps the stores of the other types keeps them well-formed, whether or not
    /// the types with slots are those with a length.
    pub(super) proof fn lemma_slots_wf(&self, before: &Self, key: TypeId)
        requires
            before.slots_wf(),
            self.maps_wf(),
            self.store_wf(key),
            forall|k: TypeId| k != key ==> #[trigger] self.same_store(before, k),
        ensures
            self.slots_wf(),
    {
        assert forall|k: TypeId| #[trigger] self.store_wf(k) by {
            if k != key {
                assert(self.same_store(before, k));
                assert(before.store_wf(k));
            }
        }
    }

    /// To put a component into a slot in use keeps a storage well-formed.
    pub(super) proof fn lemma_set<T: Storable>(&self, before: &Self, i: usize)
        requires
            before.stores_wf(),
            before.table::<T>().occupied(i as int),
            self.maps_wf(),
            self.indices == before.indices,
            self.lengths == before.lengths,
            self.components@.dom() == before.components@.dom().insert(type_id::<T>()),
            self.slots(type_id::<T>()) == before.slots(type_id::<T>()).update(
                i as int,
                self.slots(type_id::<T>())[i as int],
            ),
            self.slots(type_id::<T>())[i as int].is_of(type_id::<T>()),
            forall|k: TypeId| k != type_id::<T>() ==> #[trigger] self.same_store(before, k),
        ensures
            self.stores_wf(),
    {
        let key = type_id::<T>();
        assert(before.store_wf(key));
        assert(self.index_sets(key) == before.index_sets(key));
        assert(self.length(key) == before.length(key));
        assert(self.components@.dom() =~= before.components@.dom());
        self.lemma_stores_wf(before, key);
    }

    /// To mark a slot in use as free keeps a storage well-formed.
    pub(super) proof fn lemma_emptied<T: Storable>(&self, before: &Self, i: usize)
        requires
            before.stores_wf(),
            before.table::<T>().occupied(i as int),
            self.maps_wf(),
            self.components@.dom() == before.components@.dom().insert(type_id::<T>()),
            self.lengths@.dom() == before.lengths@.dom(),
            self.slots(type_id::<T>()) == before.slots(type_id::<T>()).update(
                i as int,
                Slot::Free(Empty::Empty),
            ),
            self.length(type_id::<T>()) == if before.length(type_id::<T>()) > 0 {
                before.length(type_id::<T>()) - 1
            } else {
                0
            },
            self.index_sets(type_id::<T>()) == before.index_sets(type_id::<T>()).release(i),
            forall|k: TypeId| k != type_id::<T>() ==> #[trigger] self.same_store(before, k),
        ensures
            self.stores_wf(),
            self.table::<T>().values == before.table::<T>().clear(i as int).values,
    {
        let key = type_id::<T>();
        assert(before.store_wf(key));
        assert(before.packed(key).contains(i));
        assert(self.packed(key) == self.index_sets(key).packed);
        assert(self.free(key) == self.index_sets(key).free);
        assert(self.table::<T>().values =~= before.table::<T>().clear(i as int).values);
        assert(self.components@.dom() =~= before.components@.dom());
        self.lemma_stores_wf(before, key);
    }

    /// A storage that keeps the stores of the other types keeps them well-formed.
    pub(super) proof fn lemma_stores_wf(&self, before: &Self, key: TypeId)
        requires
            before.stores_wf(),
            self.maps_wf(),
            self.components@.dom() == self.lengths@.dom(),
            self.store_wf(key),
            forall|k: TypeId| k != key ==> #[trigger] self.same_store(before, k),
        ensures
            self.stores_wf(),
    {
        assert forall|k: TypeId| #[trigger] self.store_wf(k) by {
            if k != key {
                assert(self.same_store(before, k));
                assert(before.store_wf(k));
            }
        }
    }

    /// The least free index or, if there is none, the length, is the slot for the next component.
    pub(super) proof fn lemma_index_is_next<T: Storable>(&self, i: usize)
        requires
            self.stores_wf(),
            self.index_sets(type_id::<T>()).is_next(self.length(type_id::<T>()) as usize, i),
        ensures
            self.table::<T>().is_next_index(i as int),
            self.table::<T>().next_index() == i,
    {
        let key = type_id::<T>();
        let slots = self.slots(key);
        let table = self.table::<T>();
        assert(self.store_wf(key));
        if self.components@.contains_key(key) {
            vstd::std_specs::vec::axiom_spec_len(&self.components@[key]);
        }
        if self.free(key) == Set::<usize>::empty() {
            assert forall|j: int| 0 <= j < slots.len() implies #[trigger]
                table.values[j] is Some by {
                assert(!self.free(key).contains(j as usize));
            }
            let all = Seq::new(slots.len(), |k: int| k);
            assert forall|j: int|
                0 <= j < table.values.len() && #[trigger]
                table.values[j] is Some implies all.contains(j) by {
                assert(all[j] == j);
            }
            lemma_enumerated(table.values, all);
            self.lemma_length::<T>();
        } else {
            assert forall|j: int| 0 <= j < i implies #[trigger] table.values[j] is Some by {
                assert(!self.free(key).contains(j as usize));
            }
        }
        table.lemma_next_index(i as int);
    }

    /// Where the owners are valid, a type that is not known has no slots and no owners.
    pub(super) proof fn lemma_table_is_store<T: Storable>(&self)
        requires
            self.owners_wf(),
        ensures
            self.store::<T>() == self.table::<T>(),
            self.store::<T>().valid(),
            self.known::<T>() == self.components@.contains_key(type_id::<T>()),
    {
        let key = type_id::<T>();
        assert(self.contents_valid(key));
        let table = self.table::<T>();
        assert forall|id: u64| #[trigger]
            table.owns(id) implies table.occupied(table.owners[id]) by {
            assert(self.owners(key).contains_key(id));
        }
        assert forall|a: u64, b: u64| #[trigger]
            table.owns(a) && #[trigger]
            table.owns(b) && table.owners[a] == table.owners[b] implies a == b by {
            assert(self.owners(key).contains_key(a) && self.owners(key).contains_key(b));
        }
        if !self.known::<T>() {
            assert(self.owners(key) =~= Map::<u64, int>::empty());
            assert(values_of::<T>(self.slots(key)) =~= Seq::<Option<T>>::empty());
        }
    }

    /// In a well-formed storage the store of each type is valid.
    pub(crate) proof fn lemma_store_valid<T: Storable>(&self)
        requires
            self.wf(),
        ensures
            self.store::<T>().valid(),
    {
        self.lemma_table_is_store::<T>();
    }

    /// A type of which an id owns a component is known.
    pub(crate) proof fn lemma_owner_is_known<T: Storable>(&self, id: u64)
        requires
            self.store::<T>().owns(id),
        ensures
            self.known::<T>(),
    {
    }

    /// The memory that is allocated for the slots of a type.
    pub(crate) proof fn lemma_allocated<T: Storable>(&self, capacity: usize)
        requires
            self.owners_wf(),
            self.known::<T>(),
            self.is_allocated::<T>(capacity),
        ensures
            exists|slots: Vec<Slot>|
                {
                    &&& slots@.len() == self.store::<T>().capacity()
                    &&& #[trigger] call_ensures(allocated::<Slot>, (&slots,), capacity)
                },
    {
        self.lemma_table_is_store::<T>();
        assert(self.components@[type_id::<T>()]@.len() == self.store::<T>().capacity());
    }

    /// The memory that is allocated for the slots of a type whose vector was shrunk.
    pub(crate) proof fn lemma_memory<T: Storable>(&self, capacity: usize)
        requires
            self.owners_wf(),
            self.known::<T>(),
            self.is_shrunk::<T>(),
            self.is_allocated::<T>(capacity),
        ensures
            exists|kept: Vec<Slot>, fitted: Vec<Slot>|
                {
                    &&& kept@.len() == self.store::<T>().capacity()
                    &&& #[trigger] call_ensures(shrunk::<Slot>, (kept,), fitted)
                    &&& #[trigger] call_ensures(allocated::<Slot>, (&fitted,), capacity)
                },
    {
        let fitted = self.components@[type_id::<T>()];
        let kept = choose|kept: Vec<Slot>| #[trigger]
            call_ensures(shrunk::<Slot>, (kept,), fitted);
        self.lemma_table_is_store::<T>();
        assert(kept@ == fitted@);
    }

    /// A storage with a valid store of type `T` that keeps all else has valid owners.
    pub(super) proof fn lemma_owners_wf<T: Storable>(&self, before: &Self)
        requires
            before.owners_wf(),
            self.table::<T>().valid(),
            forall|k: TypeId| k != type_id::<T>() ==> #[trigger] self.same_store(before, k),
            forall|k: TypeId|
                k != type_id::<T>() ==> #[trigger] self.owners(k) == before.owners(k),
        ensures
            self.owners_wf(),
            self.others::<T>() == before.others::<T>(),
    {
        let key = type_id::<T>();
        let table = self.table::<T>();
        assert forall|k: TypeId| self.contents_valid(k) by {
            if k == key {
                assert forall|id: u64| #[trigger] self.owners(key).contains_key(id) implies 0
                    <= self.owners(key)[id] < self.slots(key).len()
                    && self.slots(key)[self.owners(key)[id]] is Used by {
                    assert(table.owns(id));
                }
                assert forall|a: u64, b: u64| #[trigger]
                    self.owners(key).contains_key(a) && #[trigger] self.owners(key).contains_key(b)
                        && self.owners(key)[a] == self.owners(key)[b] implies a == b by {
                    assert(table.owns(a) && table.owns(b));
                }
            } else {
                assert(self.same_store(before, k));
                assert(self.owners(k) == before.owners(k));
                assert(before.contents_valid(k));
            }
        }
        assert forall|k: TypeId| k != key implies #[trigger] self@.dom().contains(k)
            == before@.dom().contains(k) && (self@.dom().contains(k) ==> self@[k]
            == before@[k]) by {
            assert(self.same_store(before, k));
            assert(self.owners(k) == before.owners(k));
        }
        assert forall|k: TypeId| k != key implies #[trigger] before@.dom().contains(k)
            == self@.dom().contains(k) by {
            assert(self.same_store(before, k));
        }
        assert(self.others::<T>() =~= before.others::<T>());
    }

    /// The length is the number of components.
    pub(super) proof fn lemma_length<T: Storable>(&self)
        requires
            self.stores_wf(),
        ensures
            self.length(type_id::<T>()) == self.table::<T>().len(),
    {
        let key = type_id::<T>();
        assert(self.store_wf(key));
        if self.components@.contains_key(key) {
            vstd::std_specs::vec::axiom_spec_len(&self.components@[key]);
        }
        lemma_len_of_indices(self.table::<T>().values, self.packed(key));
    }
}

} // verus!
