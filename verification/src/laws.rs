//! What holds of a storage as a whole, stated over the model of its functions.

use vstd::prelude::*;

use crate::model::{components_of, filled, lemma_compressed, lemma_enumerated, IndexSets, Store};
use crate::storable::Storable;
use crate::storage::EcstaticStorage;
use crate::trusted::{has_kind, type_id};

pub mod calls;

verus! {

/// The components among `values` are those before the slot `i`, the one in it, if any, and those
/// after it.
proof fn lemma_split<T>(values: Seq<Option<T>>, i: int)
    requires
        0 <= i < values.len(),
    ensures
        components_of(values).len() == components_of(values.take(i)).len() + (if values[i] is Some {
            1int
        } else {
            0
        }) + components_of(values.skip(i + 1)).len(),
{
    let before = values.take(i);
    let here = seq![values[i]];
    let after = values.skip(i + 1);
    assert(values =~= before + here + after);
    Seq::filter_distributes_over_add(before + here, after, filled());
    Seq::filter_distributes_over_add(before, here, filled());
    assert(components_of(here).len() == if values[i] is Some {
        1int
    } else {
        0
    }) by {
        reveal_with_fuel(Seq::filter, 2);
        assert(here.drop_last() =~= Seq::<Option<T>>::empty());
    }
}

/// What a write to the slot `i` does to the number of components.
proof fn lemma_len_updated<T>(values: Seq<Option<T>>, i: int, value: Option<T>)
    requires
        0 <= i < values.len(),
    ensures
        components_of(values.update(i, value)).len() == components_of(values).len() + (
        if value is Some {
            1int
        } else {
            0
        }) - (if values[i] is Some {
            1int
        } else {
            0
        }),
{
    let after = values.update(i, value);
    lemma_split(values, i);
    lemma_split(after, i);
    assert(after.take(i) =~= values.take(i));
    assert(after.skip(i + 1) =~= values.skip(i + 1));
}

/// What a new slot with a component does to the number of components.
proof fn lemma_len_pushed<T>(values: Seq<Option<T>>, value: T)
    ensures
        components_of(values.push(Some(value))).len() == components_of(values).len() + 1,
{
    let after = values.push(Some(value));
    let last = values.len() as int;
    lemma_split(after, last);
    assert(after.take(last) =~= values);
    assert(after.skip(last + 1) =~= Seq::<Option<T>>::empty());
    reveal(Seq::filter);
}

/// The count of non-empty components is never above the length of all components, and equals it
/// just where no slot is empty.
pub proof fn law_len_and_capacity<T>(store: Store<T>)
    ensures
        store.len() <= store.capacity(),
        store.len() == store.capacity() <==> forall|i: int|
            0 <= i < store.capacity() ==> store.occupied(i),
{
    broadcast use vstd::seq_lib::group_filter_ensures;

    if forall|i: int| 0 <= i < store.capacity() ==> store.occupied(i) {
        let all = Seq::new(store.capacity(), |k: int| k);
        assert forall|k: int| 0 <= k < all.len() implies 0 <= #[trigger] all[k] < store.values.len()
            && store.values[all[k]] is Some by {
            assert(store.occupied(k));
        }
        assert forall|i: int|
            0 <= i < store.values.len() && #[trigger] store.values[i] is Some implies all.contains(
            i,
        ) by {
            assert(all[i] == i);
        }
        lemma_enumerated(store.values, all);
    } else {
        let i = choose|i: int| 0 <= i < store.capacity() && !store.occupied(i);
        lemma_split(store.values, i);
    }
}

/// What is inserted for an id is what the id reads.
pub proof fn law_read_after_insert<T>(store: Store<T>, id: u64, value: T)
    ensures
        store.insert(id, value).owns(id),
        store.insert(id, value).component(id) == value,
{
    store.lemma_next_index_exists();
}

/// To insert a component for one id changes nothing for another.
pub proof fn law_insert_keeps_others<T>(store: Store<T>, id: u64, value: T, other: u64)
    requires
        store.valid(),
        other != id,
    ensures
        store.insert(id, value).owns(other) == store.owns(other),
        store.owns(other) ==> store.insert(id, value).component(other) == store.component(other),
{
    store.lemma_next_index_exists();
}

/// To insert a component overwrites none: each that was in a slot is still in it.
pub proof fn law_insert_overwrites_nothing<T>(store: Store<T>, id: u64, value: T, i: int)
    requires
        store.occupied(i),
    ensures
        store.insert(id, value).occupied(i),
        store.insert(id, value).values[i] == store.values[i],
{
    store.lemma_next_index_exists();
}

/// To insert a component adds one to the count, and a slot is added just where none was empty:
/// memory that was marked as empty is used again.
pub proof fn law_insert_reuses_empty_slots<T>(store: Store<T>, id: u64, value: T)
    ensures
        store.insert(id, value).len() == store.len() + 1,
        store.insert(id, value).capacity() == if store.len() < store.capacity() {
            store.capacity()
        } else {
            store.capacity() + 1
        },
{
    store.lemma_next_index_exists();
    law_len_and_capacity(store);
    let i = store.next_index();
    if i == store.capacity() {
        lemma_len_pushed(store.values, value);
        assert forall|j: int| 0 <= j < store.capacity() implies store.occupied(j) by {
            assert(store.values[j] is Some);
        }
    } else {
        lemma_len_updated(store.values, i, Some(value));
        assert(!store.occupied(i));
    }
}

/// A second component for the same id and type takes over the id. The first one stays in storage
/// and is counted, though no id owns it.
pub proof fn law_second_insert_takes_over<T>(store: Store<T>, id: u64, first: T, second: T)
    requires
        store.valid(),
    ensures
        store.insert(id, first).insert(id, second).component(id) == second,
        store.insert(id, first).insert(id, second).len() == store.len() + 2,
        store.insert(id, first).insert(id, second).occupied(store.next_index()),
        store.insert(id, first).insert(id, second).values[store.next_index()] == Some(first),
        forall|other: u64| #[trigger]
            store.insert(id, first).insert(id, second).owns(other) ==> store.insert(
                id,
                first,
            ).insert(id, second).owners[other] != store.next_index(),
{
    let once = store.insert(id, first);
    let twice = once.insert(id, second);
    store.lemma_next_index_exists();
    law_read_after_insert(once, id, second);
    law_insert_reuses_empty_slots(store, id, first);
    law_insert_reuses_empty_slots(once, id, second);
    law_insert_overwrites_nothing(once, id, second, store.next_index());
    once.lemma_next_index_exists();
    assert forall|other: u64| #[trigger] twice.owns(other) implies twice.owners[other]
        != store.next_index() by {
        if other != id {
            assert(store.owns(other));
        } else {
            assert(once.occupied(store.next_index()));
        }
    }
}

/// What an id is set to is what it reads, nothing changes for another id, and the count and the
/// length stay.
pub proof fn law_read_after_set<T>(store: Store<T>, id: u64, value: T, other: u64)
    requires
        store.valid(),
        store.owns(id),
    ensures
        store.set(id, value).owns(id),
        store.set(id, value).component(id) == value,
        store.set(id, value).owns(other) == store.owns(other),
        other != id && store.owns(other) ==> store.set(id, value).component(other)
            == store.component(other),
        store.set(id, value).len() == store.len(),
        store.set(id, value).capacity() == store.capacity(),
{
    lemma_len_updated(store.values, store.owners[id], Some(value));
}

/// An id whose component is emptied owns none, nothing changes for another id, the count drops by
/// one, and the memory stays.
pub proof fn law_empty<T>(store: Store<T>, id: u64, other: u64)
    requires
        store.valid(),
        store.owns(id),
    ensures
        !store.remove(id).owns(id),
        other != id ==> store.remove(id).owns(other) == store.owns(other),
        other != id && store.owns(other) ==> store.remove(id).component(other) == store.component(
            other,
        ),
        store.remove(id).len() == store.len() - 1,
        store.remove(id).capacity() == store.capacity(),
{
    lemma_len_updated(store.values, store.owners[id], None);
}

/// After a component is emptied, the next insert needs no new memory, whichever id it is for.
pub proof fn law_emptied_slot_is_reused<T>(store: Store<T>, id: u64, other: u64, value: T)
    requires
        store.valid(),
        store.owns(id),
    ensures
        store.remove(id).insert(other, value).capacity() == store.capacity(),
        store.remove(id).insert(other, value).len() == store.len(),
{
    law_empty(store, id, other);
    law_len_and_capacity(store);
    law_insert_reuses_empty_slots(store.remove(id), other, value);
}

/// A component that is inserted and emptied leaves the other ids as they were, and the count too.
/// Where a slot was empty before, nothing at all has changed; otherwise there is one more slot, an
/// empty one.
pub proof fn law_empty_undoes_insert<T>(store: Store<T>, id: u64, value: T)
    requires
        store.valid(),
        !store.owns(id),
    ensures
        store.insert(id, value).remove(id).owners == store.owners,
        store.insert(id, value).remove(id).len() == store.len(),
        store.insert(id, value).remove(id).values == if store.len() < store.capacity() {
            store.values
        } else {
            store.values.push(None)
        },
        forall|other: u64| #[trigger]
            store.owns(other) ==> store.insert(id, value).remove(id).component(other)
                == store.component(other),
{
    let inserted = store.insert(id, value);
    store.lemma_insert_valid(id, value);
    law_read_after_insert(store, id, value);
    law_insert_reuses_empty_slots(store, id, value);
    law_empty(inserted, id, id);
    store.lemma_next_index_exists();
    law_len_and_capacity(store);
    if store.next_index() < store.capacity() {
        assert(!store.occupied(store.next_index()));
    } else {
        assert forall|i: int| 0 <= i < store.capacity() implies store.occupied(i) by {
            assert(store.values[i] is Some);
        }
    }
    assert(inserted.remove(id).values =~= if store.len() < store.capacity() {
        store.values
    } else {
        store.values.push(None)
    });
    assert(inserted.remove(id).owners =~= store.owners);
    assert forall|other: u64| #[trigger] store.owns(other) implies inserted.remove(id).component(
        other,
    ) == store.component(other) by {
        law_insert_keeps_others(store, id, value, other);
        law_empty(inserted, id, other);
    }
}

/// A compression keeps what each id owns, and the count; it leaves no slot empty.
pub proof fn law_compress<T>(store: Store<T>, id: u64)
    requires
        store.valid(),
    ensures
        store.compress().owns(id) == store.owns(id),
        store.owns(id) ==> store.compress().component(id) == store.component(id),
        store.compress().len() == store.len(),
        store.compress().capacity() == store.len(),
{
    if store.owns(id) {
        lemma_compressed(store, store.owners[id]);
    }
    lemma_filled(components_of(store.values));
    assert forall|i: int| 0 <= i < components_of(store.values).len() implies #[trigger]
        components_of(store.values)[i] is Some by {
        broadcast use vstd::seq_lib::group_filter_ensures;
    }
}

/// Where no slot is empty, the components are what the slots hold.
proof fn lemma_filled<T>(values: Seq<Option<T>>)
    ensures
        (forall|i: int| 0 <= i < values.len() ==> #[trigger] values[i] is Some) ==> components_of(
            values,
        ) == values,
{
    if forall|i: int| 0 <= i < values.len() ==> #[trigger] values[i] is Some {
        let all = Seq::new(values.len(), |k: int| k);
        assert forall|i: int|
            0 <= i < values.len() && #[trigger] values[i] is Some implies all.contains(i) by {
            assert(all[i] == i);
        }
        lemma_enumerated(values, all);
        assert(components_of(values) =~= values);
    }
}

/// A compression that follows another changes nothing.
pub proof fn law_compress_twice<T>(store: Store<T>)
    requires
        store.valid(),
    ensures
        store.compress().compress() == store.compress(),
{
    let once = store.compress();
    store.lemma_compress_valid();
    lemma_filled(once.values);
    assert forall|i: int| 0 <= i < once.values.len() implies #[trigger] once.values[i] is Some by {
        broadcast use vstd::seq_lib::group_filter_ensures;
    }
    assert forall|id: u64| #[trigger] once.owners.contains_key(id) implies once.rank(
        once.owners[id],
    ) == once.owners[id] by {
        assert(once.owns(id));
        let i = once.owners[id];
        let front = once.values.take(i);
        assert forall|j: int| 0 <= j < front.len() implies #[trigger] front[j] is Some by {
            assert(once.values[j] is Some);
        }
        lemma_filled(front);
    }
    assert(once.compress().owners =~= once.owners);
}

/// To free an index that was just taken from the free ones undoes the taking.
pub proof fn law_free_undoes_get(indices: IndexSets, default_index: usize, i: usize)
    requires
        indices.packed.disjoint(indices.free),
        indices.free != Set::<usize>::empty(),
        indices.is_next(default_index, i),
    ensures
        indices.take(i).release(i) == indices,
{
    assert(!indices.packed.contains(i));
    assert(indices.take(i).release(i) =~= indices);
}

/// To take the default index, where no index is free, and to free it again leaves it free.
pub proof fn law_freed_default_is_free(indices: IndexSets, default_index: usize, i: usize)
    requires
        indices.free == Set::<usize>::empty(),
        indices.is_next(default_index, i),
    ensures
        indices.take(i).release(i).packed == indices.packed.remove(default_index),
        indices.take(i).release(i).free == set![default_index],
{
    assert(indices.take(i).release(i).packed =~= indices.packed.remove(default_index));
    assert(indices.take(i).release(i).free =~= set![default_index]);
}

/// In a well-formed storage each owner owns a component, and no two own the same one.
pub proof fn law_stores_are_valid<T: Storable>(storage: EcstaticStorage)
    requires
        storage.wf(),
    ensures
        storage.store::<T>().valid(),
{
    storage.lemma_store_valid::<T>();
}

/// Types of different kinds have different identifiers.
pub proof fn law_kinds_are_apart<T: Storable, U: Storable>()
    requires
        has_kind::<T>(),
        has_kind::<U>(),
        T::kind() != U::kind(),
    ensures
        type_id::<T>() != type_id::<U>(),
{
}

/// What keeps the types other than `T` as they are keeps the store of another type as it is.
pub proof fn law_types_are_apart<T: Storable, U: Storable>(
    before: EcstaticStorage,
    after: EcstaticStorage,
)
    requires
        after.others::<T>() == before.others::<T>(),
        type_id::<T>() != type_id::<U>(),
    ensures
        after.known::<U>() == before.known::<U>(),
        after.store::<U>() == before.store::<U>(),
{
    let key = type_id::<U>();
    assert(after.others::<T>().contains_key(key) == after@.contains_key(key));
    assert(before.others::<T>().contains_key(key) == before@.contains_key(key));
    if after.known::<U>() {
        assert(after.others::<T>()[key] == after@[key]);
        assert(before.others::<T>()[key] == before@[key]);
    }
}

} // verus!
