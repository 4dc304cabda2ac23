//! What a storage sets up for a type or an id before its first use.

use std::any::TypeId;
use std::collections::BTreeSet;

use vstd::prelude::*;

use super::{EcstaticStorage, FREE, PACKED};
use crate::component::Slot;
use crate::storable::Storable;
use crate::trusted::{type_id, type_key};
use crate::type_map::TypeMap;

verus! {

broadcast use {
    vstd::std_specs::btree::group_btree_axioms,
    vstd::std_specs::hash::group_hash_axioms,
    vstd::laws_cmp::group_laws_cmp,
};

impl EcstaticStorage {
    /// Gives a type its vector of slots if it has none.
    pub(super) fn check_initialized_component_vector<T: Storable>(&mut self)
        requires
            old(self).maps_wf(),
        ensures
            final(self).maps_wf(),
            final(self).indices == old(self).indices,
            final(self).lengths == old(self).lengths,
            final(self).ownership == old(self).ownership,
            final(self).components@.dom() == old(self).components@.dom().insert(type_id::<T>()),
            forall|key: TypeId| #[trigger] final(self).slots(key) == old(self).slots(key),
            old(self).components@.contains_key(type_id::<T>()) ==> *final(self) == *old(self),
    {
        if !self.components.contains_key(&type_key::<T>()) {
            self.initialize_storage_vector::<T>();
        }
        assert(self.components@.dom() =~= old(self).components@.dom().insert(type_id::<T>()));
    }

    /// Gives a type an empty vector of slots.
    pub(super) fn initialize_storage_vector<T: Storable>(&mut self)
        requires
            old(self).maps_wf(),
        ensures
            final(self).maps_wf(),
            final(self).indices == old(self).indices,
            final(self).lengths == old(self).lengths,
            final(self).ownership == old(self).ownership,
            final(self).components@.dom() == old(self).components@.dom().insert(type_id::<T>()),
            final(self).slots(type_id::<T>()) == Seq::<Slot>::empty(),
            forall|key: TypeId|
                key != type_id::<T>() ==> #[trigger] final(self).slots(key) == old(self).slots(key),
    {
        self.components.insert(type_key::<T>(), Vec::with_capacity(1));
        assert(self.components@.dom() =~= old(self).components@.dom().insert(type_id::<T>()));
    }

    /// Gives a type a length of zero if it has none.
    pub(super) fn check_initialized_lengths<T: Storable>(&mut self)
        requires
            old(self).maps_wf(),
        ensures
            final(self).maps_wf(),
            final(self).indices == old(self).indices,
            final(self).components == old(self).components,
            final(self).ownership == old(self).ownership,
            final(self).lengths@.dom() == old(self).lengths@.dom().insert(type_id::<T>()),
            forall|key: TypeId| #[trigger] final(self).length(key) == old(self).length(key),
    {
        if !self.lengths.contains_key(&type_key::<T>()) {
            self.lengths.insert(type_key::<T>(), 0);
        }
        assert(self.lengths@.dom() =~= old(self).lengths@.dom().insert(type_id::<T>()));
    }

    /// Gives a type one of its index sets if it does not have it.
    pub(super) fn check_initialized_index_set<T: Storable>(&mut self, which: usize)
        requires
            old(self).maps_wf(),
            which == PACKED || which == FREE,
        ensures
            final(self).maps_wf(),
            final(self).components == old(self).components,
            final(self).lengths == old(self).lengths,
            final(self).ownership == old(self).ownership,
            which == PACKED ==> final(self).indices@[FREE as int]
                == old(self).indices@[FREE as int],
            which == FREE ==> final(self).indices@[PACKED as int]
                == old(self).indices@[PACKED as int],
            final(self).indices@[which as int]@.contains_key(type_id::<T>()),
            forall|key: TypeId| #[trigger]
                final(self).index_set(which as int, key) == old(self).index_set(which as int, key),
    {
        if !self.indices[which].contains_key(&type_key::<T>()) {
            self.initialize_index_set::<T>(which);
        }
    }

    /// Gives a type an empty index set.
    pub(super) fn initialize_index_set<T: Storable>(&mut self, which: usize)
        requires
            old(self).maps_wf(),
            which == PACKED || which == FREE,
        ensures
            final(self).maps_wf(),
            final(self).components == old(self).components,
            final(self).lengths == old(self).lengths,
            final(self).ownership == old(self).ownership,
            which == PACKED ==> final(self).indices@[FREE as int]
                == old(self).indices@[FREE as int],
            which == FREE ==> final(self).indices@[PACKED as int]
                == old(self).indices@[PACKED as int],
            final(self).indices@[which as int]@.contains_key(type_id::<T>()),
            forall|key: TypeId| #[trigger]
                final(self).index_set(which as int, key) == if key == type_id::<T>() {
                    Set::empty()
                } else {
                    old(self).index_set(which as int, key)
                },
    {
        self.indices[which].insert(type_key::<T>(), BTreeSet::new());
    }

    /// Gives an id its map of owned slots if it has none.
    pub(super) fn check_initialized_ownership_for_id(&mut self, id: &u64)
        requires
            old(self).maps_wf(),
        ensures
            final(self).maps_wf(),
            final(self).components == old(self).components,
            final(self).lengths == old(self).lengths,
            final(self).indices == old(self).indices,
            final(self).ownership@.contains_key(*id),
            forall|key: TypeId| #[trigger] final(self).owners(key) == old(self).owners(key),
    {
        if !self.ownership.contains_key(id) {
            self.ownership.insert(*id, TypeMap::new());
        }
        assert forall|key: TypeId| #[trigger] self.owners(key) == old(self).owners(key) by {
            assert(self.owners(key) =~= old(self).owners(key));
        }
    }
}

} // verus!
