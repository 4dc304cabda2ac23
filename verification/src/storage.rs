//! Dynamically typed component storage.

use std::any::TypeId;
use std::collections::{BTreeSet, HashMap};

use vstd::prelude::*;

use self::indices::in_order;
use crate::component::{held_type, values_of, Contents, Slot};
use crate::error::{
    with_id, ErrStorage, ABSENT, ECINSERT_FAILED_ERROR_MSG, INDEX_NOT_FOUND_ERROR_MSG,
};
use crate::model::{IndexSets, Store};
use crate::storable::Storable;
use crate::trusted::{allocated, has_kind, shrunk, type_id, type_key};
use crate::type_map::TypeMap;

mod indices;
mod initialize;
mod keys;
mod lemmas;
mod owners;
mod slots;

verus! {

broadcast use {
    vstd::std_specs::btree::group_btree_axioms,
    vstd::std_specs::hash::group_hash_axioms,
    vstd::laws_cmp::group_laws_cmp,
};

/// The place of the indices in use among the index sets.
pub const PACKED: usize = 0;

/// The place of the indices that are ready for reuse among the index sets.
pub const FREE: usize = 1;

/// Storage for components of any type, each owned by an id.
pub struct EcstaticStorage {
    components: TypeMap<Vec<Slot>>,
    indices: [TypeMap<BTreeSet<usize>>; 2],
    lengths: TypeMap<usize>,
    ownership: HashMap<u64, TypeMap<usize>>,
}

impl View for EcstaticStorage {
    type V = Map<TypeId, Contents>;

    /// What the storage keeps for each type of which a component was ever inserted.
    closed spec fn view(&self) -> Map<TypeId, Contents> {
        Map::new(
            |key: TypeId| self.components@.contains_key(key),
            |key: TypeId| Contents { slots: self.slots(key), owners: self.owners(key) },
        )
    }
}

/// What a storage holds.
impl EcstaticStorage {
    /// A component of type `T` was inserted before.
    pub open spec fn known<T: Storable>(&self) -> bool {
        self@.contains_key(type_id::<T>())
    }

    /// What the storage keeps for the type `T`.
    pub open spec fn store<T: Storable>(&self) -> Store<T> {
        if self.known::<T>() {
            Store {
                values: values_of::<T>(self@[type_id::<T>()].slots),
                owners: self@[type_id::<T>()].owners,
            }
        } else {
            Store::empty()
        }
    }

    /// What the storage keeps for the types other than `T`.
    pub open spec fn others<T: Storable>(&self) -> Map<TypeId, Contents> {
        self@.remove(type_id::<T>())
    }

    /// The storage is well-formed.
    pub open spec fn wf(&self) -> bool {
        &&& self.stores_wf()
        &&& self.owners_wf()
    }

    /// For each type, the indices and the length agree with the slots, and the slots hold
    /// components of that type only.
    pub closed spec fn stores_wf(&self) -> bool {
        &&& self.slots_wf()
        &&& self.components@.dom() == self.lengths@.dom()
    }

    /// The same, whether or not the types with slots are those with a length.
    spec fn slots_wf(&self) -> bool {
        &&& self.maps_wf()
        &&& forall|key: TypeId| #[trigger] self.store_wf(key)
    }

    /// Each owner owns a component, and no two own the same one.
    pub closed spec fn owners_wf(&self) -> bool {
        forall|key: TypeId| self.contents_valid(key)
    }

    /// The maps that are keyed by types are well-formed.
    spec fn maps_wf(&self) -> bool {
        &&& self.components.wf()
        &&& self.indices@[PACKED as int].wf()
        &&& self.indices@[FREE as int].wf()
        &&& self.lengths.wf()
        &&& forall|id: u64| #[trigger] self.ownership@.contains_key(id) ==> self.ownership@[id].wf()
    }

    /// The slots of a type.
    spec fn slots(&self, key: TypeId) -> Seq<Slot> {
        if self.components@.contains_key(key) {
            self.components@[key]@
        } else {
            Seq::empty()
        }
    }

    /// The indices of a type in one of the index sets.
    spec fn index_set(&self, which: int, key: TypeId) -> Set<usize> {
        if self.indices@[which]@.contains_key(key) {
            self.indices@[which]@[key]@
        } else {
            Set::empty()
        }
    }

    /// The indices of a type that are in use.
    spec fn packed(&self, key: TypeId) -> Set<usize> {
        self.index_set(PACKED as int, key)
    }

    /// The indices of a type that are ready for reuse.
    spec fn free(&self, key: TypeId) -> Set<usize> {
        self.index_set(FREE as int, key)
    }

    /// The indices of a type.
    spec fn index_sets(&self, key: TypeId) -> IndexSets {
        IndexSets { packed: self.packed(key), free: self.free(key) }
    }

    /// The length that is kept for a type.
    spec fn length(&self, key: TypeId) -> int {
        if self.lengths@.contains_key(key) {
            self.lengths@[key] as int
        } else {
            0
        }
    }

    /// The slots of a type that the ids own.
    spec fn owners(&self, key: TypeId) -> Map<u64, int> {
        Map::new(
            |id: u64| self.ownership@.contains_key(id) && self.ownership@[id]@.contains_key(key),
            |id: u64| self.ownership@[id]@[key] as int,
        )
    }

    /// The indices in use are those of the slots in use, the free ones those of the free slots, the
    /// length counts the slots in use, and these hold components of the type.
    spec fn store_wf(&self, key: TypeId) -> bool {
        let slots = self.slots(key);
        &&& forall|i: usize| #[trigger]
            self.packed(key).contains(i) <==> i < slots.len() && slots[i as int] is Used
        &&& forall|i: usize| #[trigger]
            self.free(key).contains(i) <==> i < slots.len() && slots[i as int] is Free
        &&& self.packed(key).finite()
        &&& self.free(key).finite()
        &&& self.length(key) == self.packed(key).len()
        &&& forall|i: int|
            0 <= i < slots.len() && (#[trigger] slots[i]) is Used ==> held_type(slots[i]->Used_0)
                == key
    }

    /// The owners of a type own slots in use, and no two own the same one.
    spec fn contents_valid(&self, key: TypeId) -> bool {
        let slots = self.slots(key);
        let owners = self.owners(key);
        &&& forall|id: u64| #[trigger]
            owners.contains_key(id) ==> 0 <= owners[id] < slots.len() && slots[owners[id]] is Used
        &&& forall|a: u64, b: u64| #[trigger]
            owners.contains_key(a) && #[trigger] owners.contains_key(b) && owners[a] == owners[b]
                ==> a == b
    }

    /// `capacity` is what `Vec::capacity` tells of the vector of slots of type `T`.
    pub closed spec fn is_allocated<T: Storable>(&self, capacity: usize) -> bool {
        call_ensures(allocated::<Slot>, (&self.components@[type_id::<T>()],), capacity)
    }

    /// The vector of slots of type `T` is as `Vec::shrink_to_fit` left it.
    pub closed spec fn is_shrunk<T: Storable>(&self) -> bool {
        exists|slots: Vec<Slot>| #[trigger]
            call_ensures(shrunk::<Slot>, (slots,), self.components@[type_id::<T>()])
    }

    /// What the slots and the ownership say of the type `T`, whether or not it is known.
    spec fn table<T: Storable>(&self) -> Store<T> {
        Store {
            values: values_of::<T>(self.slots(type_id::<T>())),
            owners: self.owners(type_id::<T>()),
        }
    }

    /// The two storages keep the same slots, indices and length for a type.
    spec fn same_store(&self, other: &Self, key: TypeId) -> bool {
        &&& self.components@.contains_key(key) == other.components@.contains_key(key)
        &&& self.slots(key) == other.slots(key)
        &&& self.packed(key) == other.packed(key)
        &&& self.free(key) == other.free(key)
        &&& self.length(key) == other.length(key)
    }
}

impl EcstaticStorage {
    /// Returns an empty storage.
    pub fn new() -> (storage: EcstaticStorage)
        ensures
            storage.wf(),
            storage@ == Map::<TypeId, Contents>::empty(),
    {
        let storage = EcstaticStorage {
            components: TypeMap::new(),
            indices: [TypeMap::new(), TypeMap::new()],
            lengths: TypeMap::new(),
            ownership: HashMap::with_capacity(1),
        };
        assert(storage.components@.dom() =~= storage.lengths@.dom());
        assert(storage@ =~= Map::<TypeId, Contents>::empty());
        storage
    }

    /// Tells whether the id owns a component of type `T`.
    pub fn owns<T: Storable>(&self, id: u64) -> (owns: bool)
        requires
            self.wf(),
        ensures
            has_kind::<T>(),
            owns == self.store::<T>().owns(id),
    {
        proof {
            self.lemma_table_is_store::<T>();
        }
        self.owned_index::<T>(id).is_some()
    }

    /// Inserts a component into storage and maps the component to the id.
    pub fn ecinsert<T: Storable>(
        &mut self,
        id: u64,
        component: T,
    ) -> (inserted: Result<(), ErrStorage>)
        requires
            old(self).wf(),
        ensures
            has_kind::<T>(),
            inserted is Ok,
            final(self).wf(),
            final(self).known::<T>(),
            final(self).store::<T>() == old(self).store::<T>().insert(id, component),
            final(self).others::<T>() == old(self).others::<T>(),
    {
        let ghost key = type_id::<T>();
        proof {
            self.lemma_table_is_store::<T>();
            self.table::<T>().lemma_insert_valid(id, component);
        }
        match self.insert::<T>(component) {
            Ok(i) => {
                let ghost filled = *self;
                self.own::<T>(id, i);
                proof {
                    assert(self.table::<T>() =~= old(self).table::<T>().insert(id, component));
                    assert(self.components@.dom() =~= self.lengths@.dom());
                    assert(forall|k: TypeId| #[trigger] self.same_store(&filled, k));
                    self.lemma_same_others(&filled, old(self), key);
                    assert(self.store_wf(key)) by {
                        assert(filled.store_wf(key));
                        assert(self.same_store(&filled, key));
                    }
                    self.lemma_stores_wf(old(self), key);
                    self.lemma_owners_wf::<T>(old(self));
                    self.lemma_table_is_store::<T>();
                }
                Ok(())
            },
            Err(_) => Err(ErrStorage::Insert(with_id(ECINSERT_FAILED_ERROR_MSG, id))),
        }
    }

    /// Replaces the component in storage owned by the given id with the given component.
    pub fn ecset<T: Storable>(
        &mut self,
        id: u64,
        with: T,
    ) -> (set: Result<(), ErrStorage>)
        requires
            old(self).wf(),
            old(self).store::<T>().owns(id),
        ensures
            has_kind::<T>(),
            set is Ok,
            final(self).wf(),
            final(self).known::<T>(),
            final(self).store::<T>() == old(self).store::<T>().set(id, with),
            final(self).others::<T>() == old(self).others::<T>(),
    {
        proof {
            self.lemma_table_is_store::<T>();
            self.table::<T>().lemma_set_valid(id, with);
        }
        match self.get_owned_index_for_component::<T>(id) {
            Some(i) => {
                let set = self.set::<T>(i, with);
                proof {
                    self.lemma_set::<T>(old(self), i);
                    self.lemma_owners_wf::<T>(old(self));
                    self.lemma_table_is_store::<T>();
                }
                set
            },
            None => Err(ErrStorage::GetIndex(with_id(INDEX_NOT_FOUND_ERROR_MSG, id))),
        }
    }

    /// Modifies the value of a component owned by the given id through the provided callback
    /// without replacing the value entirely.
    pub fn ecmodify<T: Copy + Storable>(
        &mut self,
        id: u64,
        modify: impl FnOnce(&mut T),
    ) -> (modified: Result<(), ErrStorage>)
        requires
            old(self).wf(),
            old(self).store::<T>().owns(id),
            forall|value: &mut T|
                *value == old(self).store::<T>().component(id) ==> #[trigger] modify.requires(
                    (value,),
                ),
        ensures
            has_kind::<T>(),
            modified is Ok,
            final(self).wf(),
            final(self).known::<T>(),
            exists|value: &mut T|
                *value == old(self).store::<T>().component(id) && #[trigger] modify.ensures(
                    (value,),
                    (),
                ) && final(self).store::<T>() == old(self).store::<T>().set(id, *final(value)),
            final(self).others::<T>() == old(self).others::<T>(),
    {
        proof {
            self.lemma_table_is_store::<T>();
        }
        match self.get_owned_index_for_component::<T>(id) {
            Some(i) => {
                let modified = self.modify::<T>(i, modify);
                proof {
                    assert(self.components@.dom() =~= old(self).components@.dom());
                    let value = choose|value: &mut T|
                        *value == old(self).store::<T>().component(id) && #[trigger] modify.ensures(
                            (value,),
                            (),
                        ) && self.table::<T>() == old(self).table::<T>().put(
                            i as int,
                            *final(value),
                        );
                    old(self).table::<T>().lemma_set_valid(id, *final(value));
                    self.lemma_owners_wf::<T>(old(self));
                    self.lemma_table_is_store::<T>();
                }
                modified
            },
            None => Err(ErrStorage::GetIndex(with_id(INDEX_NOT_FOUND_ERROR_MSG, id))),
        }
    }

    /// Returns a copy of the component owned by the given id.
    pub fn ecread<T: Copy + Storable>(&self, id: u64) -> (read: Result<T, ErrStorage>)
        requires
            self.wf(),
            self.store::<T>().owns(id),
        ensures
            has_kind::<T>(),
            read == Ok::<T, ErrStorage>(self.store::<T>().component(id)),
    {
        proof {
            self.lemma_table_is_store::<T>();
        }
        match self.get_owned_index_for_component::<T>(id) {
            Some(i) => self.peek::<T>(i),
            None => Err(ErrStorage::GetIndex(with_id(INDEX_NOT_FOUND_ERROR_MSG, id))),
        }
    }

    /// Empties the component for the given id. WARNING: This does NOT free up the memory
    /// associated with the component. It only marks it as empty for either reuse in subsequent
    /// inserts or for compress_memory to free the memory.
    pub fn ecempty<T: Storable>(
        &mut self,
        id: u64,
    ) -> (emptied: Result<(), ErrStorage>)
        requires
            old(self).wf(),
            old(self).store::<T>().owns(id),
        ensures
            has_kind::<T>(),
            emptied is Ok,
            final(self).wf(),
            final(self).known::<T>(),
            final(self).store::<T>() == old(self).store::<T>().remove(id),
            final(self).others::<T>() == old(self).others::<T>(),
    {
        let ghost key = type_id::<T>();
        proof {
            self.lemma_table_is_store::<T>();
            self.table::<T>().lemma_remove_valid(id);
        }
        match self.get_owned_index_for_component::<T>(id) {
            Some(i) => {
                self.disown::<T>(id);
                let ghost disowned = *self;
                proof {
                    assert(forall|k: TypeId| #[trigger] disowned.same_store(old(self), k));
                    assert(disowned.store_wf(key)) by {
                        assert(old(self).store_wf(key));
                        assert(disowned.same_store(old(self), key));
                    }
                    disowned.lemma_stores_wf(old(self), key);
                }
                let emptied = self.empty::<T>(i);
                proof {
                    self.lemma_emptied::<T>(&disowned, i);
                    self.lemma_same_others(&disowned, old(self), key);
                    assert(forall|k: TypeId| #[trigger] self.owners(k) == disowned.owners(k));
                    assert(self.table::<T>() =~= old(self).table::<T>().remove(id));
                    self.lemma_owners_wf::<T>(old(self));
                    self.lemma_table_is_store::<T>();
                }
                emptied
            },
            None => Err(ErrStorage::GetIndex(with_id(INDEX_NOT_FOUND_ERROR_MSG, id))),
        }
    }

    /// Returns the length of all components including the empty ones. Note: this may not reflect
    /// how much memory is allocated until compress_memory is called at least once.
    pub fn capacity<T: Storable>(&self) -> (capacity: Result<usize, ErrStorage>)
        requires
            self.stores_wf(),
        ensures
            has_kind::<T>(),
            match capacity {
                Ok(n) => self.known::<T>() && n == self.store::<T>().capacity(),
                Err(ErrStorage::Read(text)) => !self.known::<T>() && text@ == ABSENT@,
                Err(_) => false,
            },
    {
        match self.components.get(&type_key::<T>()) {
            Some(slots) => Ok(slots.len()),
            None => Err(ErrStorage::Read(ABSENT.to_owned())),
        }
    }

    /// Returns the count of non-empty components. Empty components are NOT counted.
    pub fn len<T: Storable>(&self) -> (len: Result<usize, ErrStorage>)
        requires
            self.stores_wf(),
        ensures
            has_kind::<T>(),
            match len {
                Ok(n) => self.known::<T>() && n == self.store::<T>().len(),
                Err(ErrStorage::LenFunc(text)) => !self.known::<T>() && text@ == ABSENT@,
                Err(_) => false,
            },
    {
        match self.lengths.get(&type_key::<T>()) {
            Some(n) => {
                proof {
                    self.lemma_length::<T>();
                }
                Ok(*n)
            },
            None => Err(ErrStorage::LenFunc(ABSENT.to_owned())),
        }
    }

    /// Compresses memory for a given type. Use this after emptying a large number of components to
    /// free up memory.
    pub fn compress_memory<T: Copy + Storable>(
        &mut self,
    ) -> (compressed: Result<(), ErrStorage>)
        requires
            old(self).wf(),
            old(self).known::<T>(),
        ensures
            has_kind::<T>(),
            compressed is Ok,
            final(self).wf(),
            final(self).known::<T>(),
            final(self).store::<T>() == old(self).store::<T>().compress(),
            final(self).is_shrunk::<T>(),
            final(self).others::<T>() == old(self).others::<T>(),
    {
        let ghost key = type_id::<T>();
        let ghost table = self.table::<T>();
        proof {
            self.lemma_table_is_store::<T>();
            table.lemma_compress_valid();
        }
        let targets = self.pack::<T>()?;
        let ghost packed = *self;
        let len = self.len::<T>()?;
        // All empty slots are now to the right.
        self.truncate_storage_to_fit::<T>();
        let ghost truncated = *self;
        proof {
            packed.lemma_length::<T>();
            assert(packed.store_wf(key));
            assert(truncated.free(key) == packed.free(key));
            assert(truncated.packed(key) == packed.packed(key));
        }
        self.forget_free_indices::<T>(len);
        let ghost forgotten = *self;
        proof {
            assert(forgotten.owners(key) == table.owners);
            assert forall|id: u64| #[trigger] forgotten.owners(key).contains_key(id) implies 0
                <= forgotten.owners(key)[id] < targets@.len() && targets@[table.owners[id]]
                == table.rank(table.owners[id]) by {
                assert(table.owns(id));
                assert(table.occupied(table.owners[id]));
            }
        }
        self.relocate_owners::<T>(&targets);
        proof {
            self.lemma_same_others(&forgotten, &truncated, key);
            self.lemma_same_others(&truncated, &packed, key);
            self.lemma_same_others(&packed, old(self), key);
            assert(self.slots(key) == truncated.slots(key));
            assert(self.table::<T>().values =~= packed.table::<T>().values.take(len as int));
            assert(self.table::<T>().owners =~= table.compress().owners);
            assert(self.table::<T>() =~= table.compress());
            assert(self.store_wf(key)) by {
                assert(self.packed(key) == packed.packed(key));
                assert(self.free(key) == forgotten.free(key));
                assert forall|i: usize|
                    packed.packed(key).contains(i) <==> i < self.slots(key).len() && self.slots(
                        key,
                    )[i as int] is Used by {
                    if i < len {
                        assert(self.slots(key)[i as int] == packed.slots(key)[i as int]);
                    } else if i < packed.slots(key).len() {
                        assert(packed.table::<T>().values[i as int] is None);
                    }
                }
            }
            self.lemma_stores_wf(old(self), key);
            self.lemma_owners_wf::<T>(old(self));
            self.lemma_table_is_store::<T>();
        }
        Ok(())
    }

    /// Returns what each slot of a type holds, and for how many slots memory is allocated.
    pub fn debug_dump_components<T: Storable>(&self) -> (dump: ComponentDump<'_, T>)
        requires
            self.wf(),
            self.known::<T>(),
        ensures
            has_kind::<T>(),
            self.is_allocated::<T>(dump.capacity),
            dump.capacity >= self.store::<T>().capacity(),
            dump.components@.len() == self.store::<T>().capacity(),
            forall|i: int|
                0 <= i < dump.components@.len() ==> match #[trigger] dump.components@[i] {
                    Some(component) => self.store::<T>().values[i] == Some(*component),
                    None => self.store::<T>().values[i] is None,
                },
    {
        let mut components: Vec<Option<&T>> = Vec::new();
        proof {
            self.lemma_table_is_store::<T>();
            assert(self.store_wf(type_id::<T>()));
        }
        match self.components.get(&type_key::<T>()) {
            Some(slots) => {
                let mut i: usize = 0;
                while i < slots.len()
                    invariant
                        i <= slots@.len(),
                        components@.len() == i,
                        self.slots(type_id::<T>()) == slots@,
                        self.store_wf(type_id::<T>()),
                        forall|j: int|
                            0 <= j < i ==> match #[trigger] components@[j] {
                                Some(component) => slots@[j].value::<T>() == Some(*component),
                                None => slots@[j].value::<T>() is None,
                            },
                    decreases slots@.len() - i,
                {
                    components.push(
                        match &slots[i] {
                            Slot::Used(component) => component.get::<T>(),
                            Slot::Free(_) => None,
                        },
                    );
                    i += 1;
                }
                ComponentDump { capacity: allocated(slots), components }
            },
            None => ComponentDump { capacity: 0, components },
        }
    }

    /// Returns the indices of a type that are in use and those that are ready for reuse, each in
    /// ascending order.
    pub fn debug_dump_indices<T: Storable>(&self) -> (dump: IndexDump)
        requires
            self.wf(),
            self.known::<T>(),
        ensures
            has_kind::<T>(),
            ascending(dump.packed@),
            forall|i: usize| #[trigger]
                dump.packed@.contains(i) <==> self.store::<T>().occupied(i as int),
            ascending(dump.free@),
            forall|i: usize| #[trigger]
                dump.free@.contains(i) <==> i < self.store::<T>().capacity()
                    && self.store::<T>().values[i as int] is None,
    {
        proof {
            self.lemma_table_is_store::<T>();
            assert(self.store_wf(type_id::<T>()));
        }
        let packed = match self.indices[PACKED].get(&type_key::<T>()) {
            Some(packed) => in_order(packed),
            None => Vec::new(),
        };
        let free = match self.indices[FREE].get(&type_key::<T>()) {
            Some(free) => in_order(free),
            None => Vec::new(),
        };
        proof {
            let key = type_id::<T>();
            assert forall|i: usize| #[trigger]
                packed@.contains(i) <==> self.store::<T>().occupied(i as int) by {
                assert(packed@.contains(i) <==> self.packed(key).contains(i));
            }
            assert forall|i: usize| #[trigger]
                free@.contains(i) <==> i < self.store::<T>().capacity()
                    && self.store::<T>().values[i as int] is None by {
                assert(free@.contains(i) <==> self.free(key).contains(i));
            }
        }
        IndexDump { packed, free }
    }
}

/// What the slots of a type hold.
pub struct ComponentDump<'a, T> {
    /// The number of slots for which memory is allocated.
    pub capacity: usize,
    /// What each slot holds.
    pub components: Vec<Option<&'a T>>,
}

/// The indices of a type.
pub struct IndexDump {
    /// The indices in use.
    pub packed: Vec<usize>,
    /// The indices that are ready for reuse.
    pub free: Vec<usize>,
}

/// Each index is greater than those before it.
pub open spec fn ascending(indices: Seq<usize>) -> bool {
    forall|j: int, k: int|
        0 <= j < k < indices.len() ==> #[trigger] indices[j] < #[trigger] indices[k]
}

} // verus!
