//! The indices in use and those that are ready for reuse.

use std::any::TypeId;
use std::collections::BTreeSet;

use vstd::prelude::*;

use super::{ascending, EcstaticStorage, FREE, PACKED};
use crate::laws::law_free_undoes_get;
use crate::storable::Storable;
use crate::trusted::{pop_first, type_id, type_key};

verus! {

broadcast use {
    vstd::std_specs::btree::group_btree_axioms,
    vstd::std_specs::hash::group_hash_axioms,
    vstd::laws_cmp::group_laws_cmp,
};

impl EcstaticStorage {
    /// The indices of a type in one of the index sets, which is initialized first.
    pub(super) fn index_set_mut<T: Storable>(&mut self, which: usize) -> (set: &mut BTreeSet<usize>)
        requires
            old(self).maps_wf(),
            which == PACKED || which == FREE,
        ensures
            set@ == old(self).index_set(which as int, type_id::<T>()),
            final(self).maps_wf(),
            final(self).components == old(self).components,
            final(self).lengths == old(self).lengths,
            final(self).ownership == old(self).ownership,
            final(self).packed(type_id::<T>()) == if which == PACKED {
                final(set)@
            } else {
                old(self).packed(type_id::<T>())
            },
            final(self).free(type_id::<T>()) == if which == FREE {
                final(set)@
            } else {
                old(self).free(type_id::<T>())
            },
            forall|key: TypeId|
                key != type_id::<T>() ==> #[trigger] final(self).same_store(old(self), key),
    {
        self.check_initialized_index_set::<T>(which);
        let ghost ready = *self;
        assert(ready.index_set(which as int, type_id::<T>()) == old(self).index_set(
            which as int,
            type_id::<T>(),
        ));
        assert(forall|key: TypeId| #[trigger] ready.same_store(old(self), key));
        assert forall|after: Self, key: TypeId|
            after.same_store(&ready, key) implies #[trigger] after.same_store(old(self), key) by {
            assert(ready.same_store(old(self), key));
        }
        match self.indices[which].get_mut(&type_key::<T>()) {
            Some(set) => set,
            None => vstd::pervasive::unreached(),
        }
    }

    /// Takes the least index that is free or, if none is, the default index, and returns it.
    pub(super) fn get_index<T: Storable>(&mut self, default_index: usize) -> (index: usize)
        requires
            old(self).maps_wf(),
        ensures
            final(self).maps_wf(),
            final(self).components == old(self).components,
            final(self).lengths == old(self).lengths,
            final(self).ownership == old(self).ownership,
            old(self).index_sets(type_id::<T>()).is_next(default_index, index),
            final(self).index_sets(type_id::<T>()) == old(self).index_sets(type_id::<T>()).take(
                index,
            ),
            forall|key: TypeId|
                key != type_id::<T>() ==> #[trigger] final(self).same_store(old(self), key),
    {
        let index: usize = match pop_first(self.index_set_mut::<T>(FREE)) {
            Some(first) => first,
            None => default_index,
        };
        let ghost popped = *self;
        self.index_set_mut::<T>(PACKED).insert(index);
        proof {
            self.lemma_same_others(&popped, old(self), type_id::<T>());
        }
        index
    }

    /// Moves an index that is in use to those that are free.
    pub(super) fn free_index<T: Storable>(&mut self, i: usize)
        requires
            old(self).maps_wf(),
        ensures
            final(self).maps_wf(),
            final(self).components == old(self).components,
            final(self).lengths == old(self).lengths,
            final(self).ownership == old(self).ownership,
            final(self).index_sets(type_id::<T>()) == old(self).index_sets(type_id::<T>()).release(
                i,
            ),
            forall|key: TypeId|
                key != type_id::<T>() ==> #[trigger] final(self).same_store(old(self), key),
    {
        let removed = self.index_set_mut::<T>(PACKED).remove(&i);
        let ghost half = *self;
        if removed {
            self.index_set_mut::<T>(FREE).insert(i);
            proof {
                self.lemma_same_others(&half, old(self), type_id::<T>());
            }
        }
    }

    /// Forgets the free indices of type `T` that are not below the length.
    pub(super) fn forget_free_indices<T: Storable>(&mut self, len: usize)
        requires
            old(self).maps_wf(),
            old(self).free(type_id::<T>()).finite(),
        ensures
            final(self).maps_wf(),
            final(self).components == old(self).components,
            final(self).lengths == old(self).lengths,
            final(self).ownership == old(self).ownership,
            final(self).packed(type_id::<T>()) == old(self).packed(type_id::<T>()),
            final(self).free(type_id::<T>()).finite(),
            forall|i: usize| #[trigger]
                final(self).free(type_id::<T>()).contains(i) <==> i < len && old(self).free(
                    type_id::<T>(),
                ).contains(i),
            forall|key: TypeId|
                key != type_id::<T>() ==> #[trigger] final(self).same_store(old(self), key),
    {
        let mut free = self.index_set_mut::<T>(FREE).clone();
        let ghost cloned = *self;
        let ghost all = free@;
        let mut kept: BTreeSet<usize> = BTreeSet::new();
        while free.len() > 0
            invariant
                free@.finite(),
                kept@.finite(),
                forall|i: usize| #[trigger]
                    kept@.contains(i) <==> i < len && all.contains(i) && !free@.contains(i),
                forall|i: usize| #[trigger] free@.contains(i) ==> all.contains(i),
            decreases free@.len(),
        {
            match pop_first(&mut free) {
                Some(i) => {
                    if i < len {
                        kept.insert(i);
                    }
                },
                None => {},
            }
        }
        assert(free@ =~= Set::<usize>::empty());
        *self.index_set_mut::<T>(FREE) = kept;
        proof {
            self.lemma_same_others(&cloned, old(self), type_id::<T>());
        }
    }
}

/// To free an index that `get_index` just took from the free ones undoes the taking.
proof fn law_free_index_undoes_get_index<T: Storable>(default_index: usize, i: usize)
    ensures
        forall|taking: &mut EcstaticStorage, freeing: &mut EcstaticStorage|
            {
                &&& taking.packed(type_id::<T>()).disjoint(taking.free(type_id::<T>()))
                &&& taking.free(type_id::<T>()) != Set::<usize>::empty()
                &&& #[trigger] call_ensures(
                    EcstaticStorage::get_index::<T>,
                    (taking, default_index),
                    i,
                )
                &&& *freeing == *final(taking)
                &&& #[trigger] call_ensures(EcstaticStorage::free_index::<T>, (freeing, i), ())
            } ==> {
                &&& final(freeing).packed(type_id::<T>()) == taking.packed(type_id::<T>())
                &&& final(freeing).free(type_id::<T>()) == taking.free(type_id::<T>())
            },
{
    assert forall|taking: &mut EcstaticStorage, freeing: &mut EcstaticStorage|
        {
            &&& taking.packed(type_id::<T>()).disjoint(taking.free(type_id::<T>()))
            &&& taking.free(type_id::<T>()) != Set::<usize>::empty()
            &&& #[trigger] call_ensures(
                EcstaticStorage::get_index::<T>,
                (taking, default_index),
                i,
            )
            &&& *freeing == *final(taking)
            &&& #[trigger] call_ensures(EcstaticStorage::free_index::<T>, (freeing, i), ())
        } implies {
            &&& final(freeing).packed(type_id::<T>()) == taking.packed(type_id::<T>())
            &&& final(freeing).free(type_id::<T>()) == taking.free(type_id::<T>())
        } by {
        law_free_undoes_get(taking.index_sets(type_id::<T>()), default_index, i);
    }
}

/// The elements of a set of indices, in ascending order.
pub(super) fn in_order(set: &BTreeSet<usize>) -> (indices: Vec<usize>)
    requires
        set@.finite(),
    ensures
        ascending(indices@),
        forall|i: usize| #[trigger] indices@.contains(i) <==> set@.contains(i),
{
    let mut indices: Vec<usize> = Vec::new();
    let mut rest = set.clone();
    while rest.len() > 0
        invariant
            rest@.finite(),
            ascending(indices@),
            forall|i: usize| #[trigger]
                set@.contains(i) <==> indices@.contains(i) || rest@.contains(i),
            forall|i: usize, j: int|
                #![trigger rest@.contains(i), indices@[j]]
                rest@.contains(i) && 0 <= j < indices@.len() ==> indices@[j] < i,
        decreases rest@.len(),
    {
        match pop_first(&mut rest) {
            Some(first) => {
                let ghost before = indices@;
                indices.push(first);
                assert forall|i: usize| #[trigger]
                    indices@.contains(i) <==> before.contains(i) || i == first by {
                    broadcast use vstd::seq_lib::group_seq_properties;
                }
            },
            None => {},
        }
    }
    assert(rest@ =~= Set::<usize>::empty());
    indices
}

} // verus!
