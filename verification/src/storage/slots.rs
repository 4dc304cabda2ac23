//! The components of a type, by the index of their slot.

use std::any::TypeId;

use vstd::prelude::*;

use super::{EcstaticStorage, PACKED};
use crate::component::{lemma_holds, Component, Empty, Slot};
use crate::error::{ErrStorage, ABSENT, ABSENT_ON_IS_EMPTY, COMPONENT_EMPTY_ERROR_MSG};
use crate::model::{
    components_of, lemma_len_of_indices, lemma_packing_end, lemma_packing_start,
    lemma_packing_step, lemma_rank, packing,
};
use crate::storable::Storable;
use crate::trusted::{has_kind, pop_first, shrunk, type_id, type_key};

verus! {

broadcast use {
    vstd::std_specs::btree::group_btree_axioms,
    vstd::std_specs::hash::group_hash_axioms,
    vstd::laws_cmp::group_laws_cmp,
};

impl EcstaticStorage {
    /// Puts a component into the next slot of its type and returns the index of the slot.
    pub(super) fn insert<T: Storable>(
        &mut self,
        component: T,
    ) -> (inserted: Result<usize, ErrStorage>)
        requires
            old(self).stores_wf(),
        ensures
            has_kind::<T>(),
            final(self).stores_wf(),
            final(self).ownership == old(self).ownership,
            final(self).components@.contains_key(type_id::<T>()),
            forall|key: TypeId|
                key != type_id::<T>() ==> #[trigger] final(self).same_store(old(self), key),
            final(self).table::<T>() == old(self).table::<T>().put(
                old(self).table::<T>().next_index(),
                component,
            ),
            match inserted {
                Ok(i) => i == old(self).table::<T>().next_index(),
                Err(_) => false,
            },
    {
        let ghost key = type_id::<T>();
        self.check_initialized_component_vector::<T>();
        let ghost half = *self;
        self.check_initialized_lengths::<T>();
        let ghost ready = *self;
        proof {
            assert(ready.components@.dom() =~= ready.lengths@.dom());
            assert forall|k: TypeId| #[trigger]
                ready.store_wf(k) && ready.slots(k) == old(self).slots(k) && (k != key
                    ==> ready.same_store(old(self), k)) by {
                assert(old(self).store_wf(k));
                assert(half.slots(k) == old(self).slots(k));
                assert(ready.slots(k) == half.slots(k));
                assert(ready.length(k) == half.length(k));
                assert(half.length(k) == old(self).length(k));
                assert(ready.packed(k) == old(self).packed(k));
                assert(ready.free(k) == old(self).free(k));
                assert(half.components@.dom().contains(k) == (
                old(self).components@.dom().contains(k) || k == key));
            }
            assert(ready.store_wf(key));
            ready.lemma_length::<T>();
        }
        let len: usize = match self.len::<T>() {
            Ok(len) => len,
            Err(e) => return Err(e),
        };
        let i = self.get_index::<T>(len);
        proof {
            ready.lemma_index_is_next::<T>(i);
        }
        let ghost indexed = *self;
        let boxed = Component::new(component);
        proof {
            lemma_holds(boxed, component);
        }
        match self.components.get_mut(&type_key::<T>()) {
            Some(slots) => {
                slots.push(Slot::Used(boxed));
            },
            None => {},
        }
        let empty = match self.is_empty::<T>(i) {
            Ok(empty) => empty,
            Err(_) => true,
        };
        if empty {
            match self.components.get_mut(&type_key::<T>()) {
                Some(slots) => {
                    slots.swap_remove(i);
                },
                None => {},
            }
        }
        proof {
            assert(self.slots(key) == if i == ready.slots(key).len() {
                ready.slots(key).push(Slot::Used(boxed))
            } else {
                ready.slots(key).update(i as int, Slot::Used(boxed))
            });
            assert(self.table::<T>() =~= old(self).table::<T>().put(i as int, component));
            assert(ready.store_wf(key));
            vstd::std_specs::vec::axiom_spec_len(&self.components@[key]);
            lemma_len_of_indices(self.table::<T>().values, self.packed(key));
            broadcast use vstd::seq_lib::group_filter_ensures;
        }
        let grow = |len: usize, amount: usize| -> (n: usize)
            requires
                len + amount <= usize::MAX,
            ensures
                n == len + amount,
            { len + amount };
        match self.change_len::<T>(1, grow) {
            Ok(_) => {},
            Err(e) => return Err(e),
        }
        proof {
            assert forall|k: TypeId| k != key implies #[trigger] self.same_store(old(self), k) by {
                assert(indexed.same_store(&ready, k));
                assert(ready.store_wf(k));
            }
            assert(self.components@.dom() =~= self.lengths@.dom());
            self.lemma_stores_wf(old(self), key);
        }
        Ok(i)
    }

    /// Puts a component into the slot `i`, in place of what it holds.
    pub(super) fn set<T: Storable>(&mut self, i: usize, component: T) -> (set: Result<
        (),
        ErrStorage,
    >)
        requires
            old(self).maps_wf(),
        ensures
            final(self).maps_wf(),
            final(self).indices == old(self).indices,
            final(self).lengths == old(self).lengths,
            final(self).ownership == old(self).ownership,
            final(self).components@.dom() == old(self).components@.dom().insert(type_id::<T>()),
            forall|key: TypeId|
                key != type_id::<T>() ==> #[trigger] final(self).same_store(old(self), key),
            match set {
                Ok(_) => {
                    &&& i < old(self).slots(type_id::<T>()).len()
                    &&& final(self).slots(type_id::<T>()) == old(self).slots(type_id::<T>()).update(
                        i as int,
                        final(self).slots(type_id::<T>())[i as int],
                    )
                    &&& final(self).slots(type_id::<T>())[i as int].is_of(type_id::<T>())
                    &&& final(self).table::<T>() == old(self).table::<T>().put(i as int, component)
                },
                Err(ErrStorage::SetComponent(text)) => {
                    &&& i >= old(self).slots(type_id::<T>()).len()
                    &&& text@ == ABSENT@
                    &&& final(self).slots(type_id::<T>()) == old(self).slots(type_id::<T>())
                },
                Err(_) => false,
            },
    {
        self.check_initialized_component_vector::<T>();
        let ghost ready = *self;
        proof {
            assert(ready.slots(type_id::<T>()) == old(self).slots(type_id::<T>()));
            ready.lemma_only_initialized(old(self), type_id::<T>());
        }
        let boxed = Component::new(component);
        proof {
            lemma_holds(boxed, component);
        }
        let stored = match self.components.get_mut(&type_key::<T>()) {
            Some(slots) => {
                if i < slots.len() {
                    slots[i] = Slot::Used(boxed);
                    true
                } else {
                    false
                }
            },
            None => false,
        };
        proof {
            assert(self.components@.dom() =~= ready.components@.dom());
            self.lemma_same_others(&ready, old(self), type_id::<T>());
        }
        if stored {
            assert(self.table::<T>() =~= old(self).table::<T>().put(i as int, component));
            Ok(())
        } else {
            Err(ErrStorage::SetComponent(ABSENT.to_owned()))
        }
    }

    /// Modifies the component in the slot `i` in place.
    pub(super) fn modify<T: Storable>(
        &mut self,
        i: usize,
        modify: impl FnOnce(&mut T),
    ) -> (modified: Result<(), ErrStorage>)
        requires
            old(self).slots_wf(),
            old(self).table::<T>().occupied(i as int) ==> forall|value: &mut T|
                *value == old(self).table::<T>().values[i as int]->0 ==> #[trigger] modify.requires(
                    (value,),
                ),
        ensures
            final(self).slots_wf(),
            final(self).indices == old(self).indices,
            final(self).lengths == old(self).lengths,
            final(self).ownership == old(self).ownership,
            final(self).components@.dom() == old(self).components@.dom().insert(type_id::<T>()),
            forall|key: TypeId|
                key != type_id::<T>() ==> #[trigger] final(self).same_store(old(self), key),
            match modified {
                Ok(_) => {
                    &&& old(self).table::<T>().occupied(i as int)
                    &&& exists|value: &mut T|
                        *value == old(self).table::<T>().values[i as int]->0
                            && #[trigger] modify.ensures((value,), ()) && final(self).table::<T>()
                            == old(self).table::<T>().put(i as int, *final(value))
                },
                Err(ErrStorage::Empty(text)) => {
                    &&& !old(self).table::<T>().occupied(i as int)
                    &&& text@ == if i < old(self).table::<T>().values.len() {
                        COMPONENT_EMPTY_ERROR_MSG@
                    } else {
                        ABSENT_ON_IS_EMPTY@
                    }
                    &&& final(self).table::<T>() == old(self).table::<T>()
                },
                Err(_) => false,
            },
    {
        let ghost key = type_id::<T>();
        let empty = self.is_empty::<T>(i);
        let ghost ready = *self;
        proof {
            assert(ready.slots(key) == old(self).slots(key));
            ready.lemma_only_initialized(old(self), key);
            assert(old(self).store_wf(key));
            assert(ready.store_wf(key));
            ready.lemma_slots_wf(old(self), key);
        }
        if empty? {
            return Err(ErrStorage::Empty(COMPONENT_EMPTY_ERROR_MSG.to_owned()));
        }
        proof {
            assert forall|component: Component, value: T| #[trigger]
                component.holds(value) implies component.value::<T>() == value by {
                lemma_holds(component, value);
            }
        }
        match self.components.get_mut(&type_key::<T>()) {
            Some(slots) => {
                match &mut slots[i] {
                    Slot::Used(component) => {
                        match component.downcast_mut::<T>() {
                            Some(value) => {
                                modify(value);
                            },
                            None => return Err(ErrStorage::Modify(ABSENT.to_owned())),
                        }
                    },
                    Slot::Free(_) => return Err(ErrStorage::Modify(ABSENT.to_owned())),
                }
            },
            None => return Err(ErrStorage::Modify(ABSENT.to_owned())),
        }
        proof {
            let value = choose|value: &mut T|
                *value == old(self).table::<T>().values[i as int]->0
                    && #[trigger] modify.ensures((value,), ())
                    && self.slots(key)[i as int]->Used_0.holds(*final(value));
            assert(self.slots(key) == old(self).slots(key).update(
                i as int,
                self.slots(key)[i as int],
            ));
            assert(self.table::<T>() =~= old(self).table::<T>().put(i as int, *final(value)));
            assert(self.components@.dom() =~= ready.components@.dom());
            self.lemma_same_others(&ready, old(self), key);
            self.lemma_slots_wf(old(self), key);
        }
        Ok(())
    }

    /// Returns a copy of the component in the slot `i`, once its type has a vector of slots.
    pub(super) fn read<T: Copy + Storable>(&mut self, i: usize) -> (read: Result<T, ErrStorage>)
        requires
            old(self).slots_wf(),
        ensures
            final(self).slots_wf(),
            final(self).indices == old(self).indices,
            final(self).lengths == old(self).lengths,
            final(self).ownership == old(self).ownership,
            final(self).components@.dom() == old(self).components@.dom().insert(type_id::<T>()),
            forall|key: TypeId| #[trigger] final(self).slots(key) == old(self).slots(key),
            old(self).components@.contains_key(type_id::<T>()) ==> *final(self) == *old(self),
            match read {
                Ok(value) => {
                    &&& old(self).table::<T>().occupied(i as int)
                    &&& value == old(self).table::<T>().values[i as int]->0
                },
                Err(ErrStorage::Empty(text)) => {
                    &&& !old(self).table::<T>().occupied(i as int)
                    &&& text@ == if i < old(self).table::<T>().values.len() {
                        COMPONENT_EMPTY_ERROR_MSG@
                    } else {
                        ABSENT_ON_IS_EMPTY@
                    }
                },
                Err(_) => false,
            },
    {
        let ghost key = type_id::<T>();
        self.check_initialized_component_vector::<T>();
        proof {
            assert(self.slots(key) == old(self).slots(key));
            self.lemma_only_initialized(old(self), key);
            assert(old(self).store_wf(key));
            assert(self.store_wf(key));
            self.lemma_slots_wf(old(self), key);
        }
        self.peek::<T>(i)
    }

    /// Returns a copy of the component in the slot `i`.
    pub(super) fn peek<T: Copy + Storable>(&self, i: usize) -> (read: Result<T, ErrStorage>)
        requires
            self.slots_wf(),
        ensures
            match read {
                Ok(value) => {
                    &&& self.table::<T>().occupied(i as int)
                    &&& value == self.table::<T>().values[i as int]->0
                },
                Err(ErrStorage::Empty(text)) => {
                    &&& !self.table::<T>().occupied(i as int)
                    &&& text@ == if i < self.table::<T>().values.len() {
                        COMPONENT_EMPTY_ERROR_MSG@
                    } else {
                        ABSENT_ON_IS_EMPTY@
                    }
                },
                Err(_) => false,
            },
    {
        proof {
            assert(self.store_wf(type_id::<T>()));
        }
        if self.is_marked_free::<T>(i)? {
            return Err(ErrStorage::Empty(COMPONENT_EMPTY_ERROR_MSG.to_owned()));
        }
        match self.components.get(&type_key::<T>()) {
            Some(slots) => match &slots[i] {
                Slot::Used(component) => match component.get::<T>() {
                    Some(value) => Ok(*value),
                    None => Err(ErrStorage::Read(ABSENT.to_owned())),
                },
                Slot::Free(_) => Err(ErrStorage::Read(ABSENT.to_owned())),
            },
            None => Err(ErrStorage::Read(ABSENT.to_owned())),
        }
    }

    /// Marks the slot `i` as free and its index, if it was in use, as ready for reuse.
    pub(super) fn empty<T: Storable>(&mut self, i: usize) -> (emptied: Result<(), ErrStorage>)
        requires
            old(self).maps_wf(),
        ensures
            final(self).maps_wf(),
            final(self).ownership == old(self).ownership,
            final(self).components@.dom() == old(self).components@.dom().insert(type_id::<T>()),
            final(self).lengths@.dom() == old(self).lengths@.dom(),
            forall|key: TypeId|
                key != type_id::<T>() ==> #[trigger] final(self).same_store(old(self), key),
            final(self).slots(type_id::<T>()) == if i < old(self).slots(type_id::<T>()).len() {
                old(self).slots(type_id::<T>()).update(i as int, Slot::Free(Empty::Empty))
            } else {
                old(self).slots(type_id::<T>())
            },
            match emptied {
                Ok(_) => {
                    &&& i < old(self).slots(type_id::<T>()).len()
                    &&& old(self).lengths@.contains_key(type_id::<T>())
                    &&& final(self).length(type_id::<T>()) == if old(self).length(type_id::<T>())
                        > 0 {
                        old(self).length(type_id::<T>()) - 1
                    } else {
                        0
                    }
                    &&& final(self).index_sets(type_id::<T>()) == old(self).index_sets(
                        type_id::<T>(),
                    ).release(i)
                },
                Err(ErrStorage::Empty(text)) => {
                    &&& i >= old(self).slots(type_id::<T>()).len()
                        || !old(self).lengths@.contains_key(type_id::<T>())
                    &&& text@ == ABSENT@
                    &&& final(self).length(type_id::<T>()) == old(self).length(type_id::<T>())
                    &&& final(self).index_sets(type_id::<T>()) == old(self).index_sets(
                        type_id::<T>(),
                    )
                },
                Err(_) => false,
            },
    {
        let ghost key = type_id::<T>();
        self.check_initialized_component_vector::<T>();
        let ghost ready = *self;
        proof {
            assert(ready.slots(key) == old(self).slots(key));
            ready.lemma_only_initialized(old(self), key);
        }
        let marked = match self.components.get_mut(&type_key::<T>()) {
            Some(slots) => {
                if i < slots.len() {
                    slots[i] = Slot::Free(Empty::Empty);
                    true
                } else {
                    false
                }
            },
            None => false,
        };
        proof {
            assert(self.components@.dom() =~= ready.components@.dom());
            self.lemma_same_others(&ready, old(self), key);
            assert(self.index_sets(key) == old(self).index_sets(key));
        }
        if !marked {
            return Err(ErrStorage::Empty(ABSENT.to_owned()));
        }
        let ghost freed = *self;
        let shrink = |len: usize, amount: usize| -> (n: usize)
            requires
                len == 0 || amount <= len,
            ensures
                n == if len > 0 {
                    len - amount
                } else {
                    0
                },
            {
                if len > 0 {
                    len - amount
                } else {
                    0
                }
            };
        match self.change_len::<T>(1, shrink) {
            Ok(_) => {},
            Err(_) => {
                proof {
                    self.lemma_same_others(&freed, old(self), key);
                }
                return Err(ErrStorage::Empty(ABSENT.to_owned()));
            },
        }
        let ghost shrunk = *self;
        proof {
            assert(self.lengths@.dom() =~= old(self).lengths@.dom());
            assert(shrunk.index_sets(key) == old(self).index_sets(key));
        }
        self.free_index::<T>(i);
        proof {
            self.lemma_same_others(&shrunk, &freed, key);
            self.lemma_same_others(&freed, old(self), key);
        }
        Ok(())
    }

    /// Changes the length of a type by an amount.
    pub(super) fn change_len<T: Storable>(
        &mut self,
        amount: usize,
        f: impl FnOnce(usize, usize) -> usize,
    ) -> (changed: Result<(), ErrStorage>)
        requires
            old(self).maps_wf(),
            old(self).lengths@.contains_key(type_id::<T>()) ==> f.requires(
                (old(self).lengths@[type_id::<T>()], amount),
            ),
        ensures
            final(self).maps_wf(),
            final(self).components == old(self).components,
            final(self).indices == old(self).indices,
            final(self).ownership == old(self).ownership,
            match changed {
                Ok(_) => {
                    &&& old(self).lengths@.contains_key(type_id::<T>())
                    &&& exists|n: usize| #[trigger]
                        f.ensures((old(self).lengths@[type_id::<T>()], amount), n)
                            && final(self).lengths@ == old(self).lengths@.insert(type_id::<T>(), n)
                },
                Err(ErrStorage::LenFunc(text)) => {
                    &&& !old(self).lengths@.contains_key(type_id::<T>())
                    &&& text@ == ABSENT@
                    &&& final(self).lengths == old(self).lengths
                },
                Err(_) => false,
            },
    {
        match self.lengths.get_mut(&type_key::<T>()) {
            Some(len) => {
                *len = f(*len, amount);
                Ok(())
            },
            None => Err(ErrStorage::LenFunc(ABSENT.to_owned())),
        }
    }

    /// Tells whether the slot `i` is marked as free, once its type has a vector of slots.
    pub(super) fn is_empty<T: Storable>(&mut self, i: usize) -> (empty: Result<bool, ErrStorage>)
        requires
            old(self).maps_wf(),
        ensures
            final(self).maps_wf(),
            final(self).indices == old(self).indices,
            final(self).lengths == old(self).lengths,
            final(self).ownership == old(self).ownership,
            final(self).components@.dom() == old(self).components@.dom().insert(type_id::<T>()),
            forall|key: TypeId| #[trigger] final(self).slots(key) == old(self).slots(key),
            old(self).components@.contains_key(type_id::<T>()) ==> *final(self) == *old(self),
            match empty {
                Ok(empty) => {
                    &&& i < old(self).slots(type_id::<T>()).len()
                    &&& empty == (old(self).slots(type_id::<T>())[i as int] is Free)
                },
                Err(ErrStorage::Empty(text)) => {
                    &&& i >= old(self).slots(type_id::<T>()).len()
                    &&& text@ == ABSENT_ON_IS_EMPTY@
                },
                Err(_) => false,
            },
    {
        self.check_initialized_component_vector::<T>();
        assert(self.slots(type_id::<T>()) == old(self).slots(type_id::<T>()));
        self.is_marked_free::<T>(i)
    }

    /// Tells whether the slot `i` is marked as free.
    fn is_marked_free<T: Storable>(&self, i: usize) -> (empty: Result<bool, ErrStorage>)
        requires
            self.maps_wf(),
        ensures
            match empty {
                Ok(empty) => {
                    &&& i < self.slots(type_id::<T>()).len()
                    &&& empty == (self.slots(type_id::<T>())[i as int] is Free)
                },
                Err(ErrStorage::Empty(text)) => {
                    &&& i >= self.slots(type_id::<T>()).len()
                    &&& text@ == ABSENT_ON_IS_EMPTY@
                },
                Err(_) => false,
            },
    {
        match self.components.get(&type_key::<T>()) {
            Some(slots) => {
                if i < slots.len() {
                    match slots[i] {
                        Slot::Free(_) => Ok(true),
                        Slot::Used(_) => Ok(false),
                    }
                } else {
                    Err(ErrStorage::Empty(ABSENT_ON_IS_EMPTY.to_owned()))
                }
            },
            None => Err(ErrStorage::Empty(ABSENT_ON_IS_EMPTY.to_owned())),
        }
    }

    /// Drops the slots of a type beyond its length, and gives back memory that is not needed.
    pub(super) fn truncate_storage_to_fit<T: Storable>(&mut self)
        requires
            old(self).stores_wf(),
            old(self).components@.contains_key(type_id::<T>()),
        ensures
            final(self).maps_wf(),
            final(self).indices == old(self).indices,
            final(self).lengths == old(self).lengths,
            final(self).ownership == old(self).ownership,
            final(self).components@.dom() == old(self).components@.dom(),
            final(self).slots(type_id::<T>()) == old(self).slots(type_id::<T>()).take(
                old(self).length(type_id::<T>()),
            ),
            final(self).is_shrunk::<T>(),
            exists|kept: Vec<Slot>|
                {
                    &&& kept@ == old(self).slots(type_id::<T>()).take(
                        old(self).length(type_id::<T>()),
                    )
                    &&& #[trigger] call_ensures(
                        shrunk::<Slot>,
                        (kept,),
                        final(self).components@[type_id::<T>()],
                    )
                },
            forall|key: TypeId|
                key != type_id::<T>() ==> #[trigger] final(self).same_store(old(self), key),
    {
        proof {
            self.lemma_length::<T>();
            broadcast use vstd::seq_lib::group_filter_ensures;
        }
        let len: usize = match self.len::<T>() {
            Ok(len) => len,
            Err(_) => 0,
        };
        match self.components.get_mut(&type_key::<T>()) {
            Some(slots) => {
                slots.truncate(len);
                let mut kept: Vec<Slot> = Vec::new();
                std::mem::swap(slots, &mut kept);
                *slots = shrunk(kept);
            },
            None => {},
        }
        assert(self.components@.dom() =~= old(self).components@.dom());
    }

    /// Moves each component of type `T`, from the first slot to the last, to the first slot that
    /// is free, and returns for each slot where its component went.
    pub(super) fn pack<T: Copy + Storable>(
        &mut self,
    ) -> (packed: Result<Vec<usize>, ErrStorage>)
        requires
            old(self).stores_wf(),
            old(self).components@.contains_key(type_id::<T>()),
        ensures
            final(self).stores_wf(),
            final(self).ownership == old(self).ownership,
            final(self).components@.contains_key(type_id::<T>()),
            forall|key: TypeId|
                key != type_id::<T>() ==> #[trigger] final(self).same_store(old(self), key),
            final(self).length(type_id::<T>()) == old(self).table::<T>().len(),
            final(self).table::<T>().values.len() == old(self).table::<T>().values.len(),
            final(self).table::<T>().values.take(old(self).table::<T>().len() as int)
                == components_of(old(self).table::<T>().values),
            forall|i: int|
                old(self).table::<T>().len() <= i < old(self).table::<T>().values.len()
                    ==> #[trigger] final(self).table::<T>().values[i] is None,
            match packed {
                Ok(targets) => {
                    &&& targets@.len() == old(self).table::<T>().values.len()
                    &&& forall|i: int|
                        old(self).table::<T>().occupied(i) ==> #[trigger] targets@[i]
                            == old(self).table::<T>().rank(i)
                },
                Err(_) => false,
            },
    {
        let ghost key = type_id::<T>();
        let ghost values = self.table::<T>().values;
        let ghost mut from: Seq<int> = Seq::empty();
        proof {
            assert(self.store_wf(key));
        }
        let mut packed = self.index_set_mut::<T>(PACKED).clone();
        let ghost cloned = *self;
        proof {
            assert(cloned.store_wf(key));
            cloned.lemma_stores_wf(old(self), key);
        }
        let capacity: usize = match self.capacity::<T>() {
            Ok(capacity) => capacity,
            Err(e) => return Err(e),
        };
        let mut targets: Vec<usize> = Vec::with_capacity(capacity);
        targets.resize(capacity, 0);
        proof {
            vstd::std_specs::vec::axiom_spec_len(&self.components@[key]);
            lemma_packing_start(values, packed@);
        }
        while packed.len() > 0
            invariant
                key == type_id::<T>(),
                values == old(self).table::<T>().values,
                self.stores_wf(),
                self.ownership == old(self).ownership,
                self.components@.contains_key(key),
                forall|k: TypeId| k != key ==> #[trigger] self.same_store(old(self), k),
                packed@.finite(),
                packing(values, self.table::<T>().values, packed@, from),
                targets@.len() == values.len(),
                forall|j: int| 0 <= j < from.len() ==> targets@[#[trigger] from[j]] == j,
            decreases packed@.len(),
        {
            let ghost rest = packed@;
            let i_packed: usize = match pop_first(&mut packed) {
                Some(i) => i,
                None => return Err(ErrStorage::Empty(ABSENT.to_owned())),
            };
            let ghost before = *self;
            proof {
                lemma_packing_step(before.table::<T>(), values, rest, from, i_packed);
            }
            let component = self.read::<T>(i_packed)?;
            self.empty::<T>(i_packed)?;
            let ghost emptied = *self;
            proof {
                emptied.lemma_emptied::<T>(&before, i_packed);
            }
            let target = self.insert::<T>(component)?;
            proof {
                self.lemma_same_others(&emptied, &before, key);
                self.lemma_same_others(&before, old(self), key);
                assert forall|j: int| 0 <= j < from.len() implies #[trigger] from[j]
                    != i_packed by {
                    assert(from[j] <= from.last());
                }
            }
            targets[i_packed] = target;
            proof {
                from = from.push(i_packed as int);
            }
        }
        proof {
            assert(packed@ =~= Set::<usize>::empty());
            lemma_packing_end(values, self.table::<T>().values, packed@, from);
            self.lemma_length::<T>();
            assert forall|i: int| old(self).table::<T>().occupied(i) implies #[trigger] targets@[i]
                == old(self).table::<T>().rank(i) by {
                assert(values[i] is Some);
                let k = choose|k: int| 0 <= k < from.len() && from[k] == i;
                lemma_rank(old(self).table::<T>(), from, k);
            }
        }
        Ok(targets)
    }
}

} // verus!
