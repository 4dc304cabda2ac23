//! The slots that ids own.

use std::any::TypeId;

use vstd::prelude::*;
use vstd::std_specs::iter::IteratorSpec;

use super::EcstaticStorage;
use crate::storable::Storable;
use crate::trusted::{has_kind, type_id, type_key};
use crate::type_map::TypeMap;

verus! {

broadcast use {
    vstd::std_specs::btree::group_btree_axioms,
    vstd::std_specs::hash::group_hash_axioms,
    vstd::laws_cmp::group_laws_cmp,
};

impl EcstaticStorage {
    /// The slot of type `T` that the id owns, if any.
    pub(super) fn owned_index<T: Storable>(&self, id: u64) -> (index: Option<usize>)
        requires
            self.maps_wf(),
        ensures
            has_kind::<T>(),
            match index {
                Some(i) => {
                    &&& self.owners(type_id::<T>()).contains_key(id)
                    &&& i == self.owners(type_id::<T>())[id]
                },
                None => !self.owners(type_id::<T>()).contains_key(id),
            },
    {
        let key = type_key::<T>();
        match self.ownership.get(&id) {
            Some(owned) => match owned.get(&key) {
                Some(i) => Some(*i),
                None => None,
            },
            None => None,
        }
    }

    /// The slot of type `T` that the id, which owns one, owns.
    pub(super) fn get_owned_index_for_component<T: Storable>(&self, id: u64) -> (index: Option<
        usize,
    >)
        requires
            self.maps_wf(),
            self.owners(type_id::<T>()).contains_key(id),
        ensures
            has_kind::<T>(),
            match index {
                Some(i) => i == self.owners(type_id::<T>())[id],
                None => false,
            },
    {
        self.owned_index::<T>(id)
    }

    /// Lets the id own the slot `i` of type `T`.
    pub(super) fn own<T: Storable>(&mut self, id: u64, i: usize)
        requires
            old(self).maps_wf(),
        ensures
            final(self).maps_wf(),
            final(self).components == old(self).components,
            final(self).indices == old(self).indices,
            final(self).lengths == old(self).lengths,
            final(self).owners(type_id::<T>()) == old(self).owners(type_id::<T>()).insert(
                id,
                i as int,
            ),
            forall|key: TypeId|
                key != type_id::<T>() ==> #[trigger] final(self).owners(key) == old(self).owners(
                    key,
                ),
    {
        self.check_initialized_ownership_for_id(&id);
        let ghost ready = *self;
        match self.ownership.remove(&id) {
            Some(mut owned) => {
                owned.insert(type_key::<T>(), i);
                self.ownership.insert(id, owned);
            },
            None => {},
        }
        proof {
            assert(ready.owners(type_id::<T>()) == old(self).owners(type_id::<T>()));
            assert(self.owners(type_id::<T>()) =~= ready.owners(type_id::<T>()).insert(
                id,
                i as int,
            ));
            assert forall|key: TypeId| key != type_id::<T>() implies #[trigger] self.owners(key)
                == old(self).owners(key) by {
                assert(ready.owners(key) == old(self).owners(key));
                assert(self.owners(key) =~= ready.owners(key));
            }
        }
    }

    /// Lets the id own no slot of type `T` any more.
    pub(super) fn disown<T: Storable>(&mut self, id: u64)
        requires
            old(self).maps_wf(),
        ensures
            final(self).maps_wf(),
            final(self).components == old(self).components,
            final(self).indices == old(self).indices,
            final(self).lengths == old(self).lengths,
            final(self).owners(type_id::<T>()) == old(self).owners(type_id::<T>()).remove(id),
            forall|key: TypeId|
                key != type_id::<T>() ==> #[trigger] final(self).owners(key) == old(self).owners(
                    key,
                ),
    {
        match self.ownership.remove(&id) {
            Some(mut owned) => {
                owned.remove(&type_key::<T>());
                self.ownership.insert(id, owned);
            },
            None => {},
        }
        proof {
            assert(self.owners(type_id::<T>()) =~= old(self).owners(type_id::<T>()).remove(id));
            assert forall|key: TypeId| key != type_id::<T>() implies #[trigger] self.owners(key)
                == old(self).owners(key) by {
                assert(self.owners(key) =~= old(self).owners(key));
            }
        }
    }

    /// Moves the ownership of each slot of type `T` to the slot it names as the target.
    pub(super) fn relocate_owners<T: Storable>(&mut self, targets: &Vec<usize>)
        requires
            old(self).maps_wf(),
            forall|id: u64| #[trigger]
                old(self).owners(type_id::<T>()).contains_key(id) ==> 0 <= old(self).owners(
                    type_id::<T>(),
                )[id] < targets@.len(),
        ensures
            final(self).maps_wf(),
            final(self).components == old(self).components,
            final(self).indices == old(self).indices,
            final(self).lengths == old(self).lengths,
            final(self).owners(type_id::<T>()) == old(self).owners(type_id::<T>()).map_values(
                |i: int| targets@[i] as int,
            ),
            forall|key: TypeId|
                key != type_id::<T>() ==> #[trigger] final(self).owners(key) == old(self).owners(
                    key,
                ),
    {
        let ghost key = type_id::<T>();
        let ghost before = self.owners(key);
        let mut ids: Vec<u64> = Vec::new();
        let owners = self.ownership.keys();
        let ghost all = owners.remaining().unref();
        assert(all.to_set() == self.ownership@.dom());
        for id in keys: owners
            invariant
                keys.seq().unref() == all,
                ids@ == all.take(keys.index() as int),
        {
            ids.push(*id);
        }
        assert(ids@ =~= all);
        assert(ids@.no_duplicates());
        assert(ids@.to_set() == self.ownership@.dom());
        assert forall|id: u64| #[trigger] before.contains_key(id) implies ids@.contains(id) by {
            assert(ids@.to_set().contains(id));
        }
        let mut n: usize = 0;
        while n < ids.len()
            invariant
                n <= ids@.len(),
                ids@.no_duplicates(),
                self.maps_wf(),
                self.components == old(self).components,
                self.indices == old(self).indices,
                self.lengths == old(self).lengths,
                key == type_id::<T>(),
                before == old(self).owners(key),
                forall|id: u64| #[trigger]
                    before.contains_key(id) ==> 0 <= before[id] < targets@.len(),
                self.owners(key).dom() == before.dom(),
                forall|id: u64| #[trigger]
                    before.contains_key(id) ==> self.owners(key)[id] == if ids@.take(
                        n as int,
                    ).contains(id) {
                        targets@[before[id]] as int
                    } else {
                        before[id]
                    },
                forall|k: TypeId| k != key ==> #[trigger] self.owners(k) == old(self).owners(k),
            decreases ids@.len() - n,
        {
            let id: u64 = ids[n];
            assert(!ids@.take(n as int).contains(id));
            match self.owned_index::<T>(id) {
                Some(i) => {
                    self.own::<T>(id, targets[i]);
                },
                None => {},
            }
            assert forall|other: u64| #[trigger]
                ids@.take(n + 1).contains(other) <==> ids@.take(n as int).contains(other) || other
                    == id by {
                assert(ids@.take(n + 1) =~= ids@.take(n as int).push(id));
                broadcast use vstd::seq_lib::group_seq_properties;
            }
            n += 1;
            assert(self.owners(key).dom() =~= before.dom());
        }
        assert(ids@.take(n as int) =~= ids@);
        assert(self.owners(key) =~= before.map_values(|i: int| targets@[i] as int));
    }
}

} // verus!
