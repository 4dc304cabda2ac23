//! How the calls of a storage's functions relate to each other: what a call returns, given what
//! the calls before it were handed and returned.

use std::collections::hash_map::DefaultHasher;
use std::time::{Duration, SystemTime, SystemTimeError};

use vstd::prelude::*;
use vstd::std_specs::hash::DefaultHasherAdditionalSpecFns;

use crate::component::Slot;
use crate::error::ErrStorage;
use crate::laws::{
    law_compress, law_empty, law_insert_keeps_others, law_insert_reuses_empty_slots,
    law_len_and_capacity, law_read_after_insert, law_read_after_set, law_types_are_apart,
};
use crate::model::{enumerates, lemma_enumerated, lemma_len_of_indices};
use crate::storable::{same_type_as, Storable};
use crate::storage::{ComponentDump, EcstaticStorage, IndexDump};
use crate::trusted::{allocated, fed, shrunk, since_epoch, type_id};

verus! {

/// A new storage holds nothing, of no type and for no id.
pub proof fn law_new_holds_nothing<T: Storable>(
    storage: EcstaticStorage,
    id: u64,
    owns: bool,
    len: Result<usize, ErrStorage>,
    capacity: Result<usize, ErrStorage>,
)
    requires
        call_ensures(EcstaticStorage::new, (), storage),
        call_ensures(EcstaticStorage::owns::<T>, (&storage, id), owns),
        call_ensures(EcstaticStorage::len::<T>, (&storage,), len),
        call_ensures(EcstaticStorage::capacity::<T>, (&storage,), capacity),
    ensures
        !owns,
        len is Err,
        len->Err_0 is LenFunc,
        capacity is Err,
        capacity->Err_0 is Read,
{
}

/// What is inserted for an id is what the id reads.
pub proof fn law_insert_then_read<T: Copy + Storable>(
    before: EcstaticStorage,
    after: EcstaticStorage,
    id: u64,
    component: T,
    done: Result<(), ErrStorage>,
    read: Result<T, ErrStorage>,
)
    requires
        exists|storage: &mut EcstaticStorage|
            *storage == before && *final(storage) == after && #[trigger] call_ensures(
                EcstaticStorage::ecinsert::<T>,
                (storage, id, component),
                done,
            ),
        call_ensures(EcstaticStorage::ecread::<T>, (&after, id), read),
    ensures
        done is Ok,
        read == Ok::<T, ErrStorage>(component),
{
    law_read_after_insert(before.store::<T>(), id, component);
}

/// What an id is set to is what it reads.
pub proof fn law_set_then_read<T: Copy + Storable>(
    before: EcstaticStorage,
    after: EcstaticStorage,
    id: u64,
    with: T,
    done: Result<(), ErrStorage>,
    read: Result<T, ErrStorage>,
)
    requires
        before.wf(),
        call_ensures(EcstaticStorage::owns::<T>, (&before, id), true),
        exists|storage: &mut EcstaticStorage|
            *storage == before && *final(storage) == after && #[trigger] call_ensures(
                EcstaticStorage::ecset::<T>,
                (storage, id, with),
                done,
            ),
        call_ensures(EcstaticStorage::ecread::<T>, (&after, id), read),
    ensures
        done is Ok,
        read == Ok::<T, ErrStorage>(with),
{
    before.lemma_store_valid::<T>();
    law_read_after_set(before.store::<T>(), id, with, id);
}

/// What an id reads after a modification is what the callback made of what it read before.
pub proof fn law_modify_then_read<T: Copy + Storable, F: FnOnce(&mut T)>(
    before: EcstaticStorage,
    after: EcstaticStorage,
    id: u64,
    modify: F,
    done: Result<(), ErrStorage>,
    read_before: Result<T, ErrStorage>,
    read: Result<T, ErrStorage>,
)
    requires
        before.wf(),
        call_ensures(EcstaticStorage::owns::<T>, (&before, id), true),
        exists|storage: &mut EcstaticStorage|
            *storage == before && *final(storage) == after && #[trigger] call_ensures(
                EcstaticStorage::ecmodify::<T>,
                (storage, id, modify),
                done,
            ),
        call_ensures(EcstaticStorage::ecread::<T>, (&before, id), read_before),
        call_ensures(EcstaticStorage::ecread::<T>, (&after, id), read),
    ensures
        done is Ok,
        exists|value: &mut T|
            read_before == Ok::<T, ErrStorage>(*value) && #[trigger] modify.ensures((value,), ())
                && read == Ok::<T, ErrStorage>(*final(value)),
{
    let value = choose|value: &mut T|
        *value == before.store::<T>().component(id) && #[trigger] modify.ensures((value,), ())
            && after.store::<T>() == before.store::<T>().set(id, *final(value));
    before.lemma_store_valid::<T>();
    law_read_after_set(before.store::<T>(), id, *final(value), id);
    assert(modify.ensures((value,), ()));
}

/// After an insert the id owns a component, and of every other id it is as it was.
pub proof fn law_insert_then_owns<T: Storable>(
    before: EcstaticStorage,
    after: EcstaticStorage,
    id: u64,
    component: T,
    done: Result<(), ErrStorage>,
    other: u64,
    owned: bool,
    owns: bool,
)
    requires
        before.wf(),
        exists|storage: &mut EcstaticStorage|
            *storage == before && *final(storage) == after && #[trigger] call_ensures(
                EcstaticStorage::ecinsert::<T>,
                (storage, id, component),
                done,
            ),
        call_ensures(EcstaticStorage::owns::<T>, (&before, other), owned),
        call_ensures(EcstaticStorage::owns::<T>, (&after, other), owns),
    ensures
        owns == (other == id || owned),
{
    before.lemma_store_valid::<T>();
    law_read_after_insert(before.store::<T>(), id, component);
    if other != id {
        law_insert_keeps_others(before.store::<T>(), id, component, other);
    }
}

/// To set a component changes nothing of who owns one.
pub proof fn law_set_then_owns<T: Storable>(
    before: EcstaticStorage,
    after: EcstaticStorage,
    id: u64,
    with: T,
    done: Result<(), ErrStorage>,
    other: u64,
    owned: bool,
    owns: bool,
)
    requires
        before.wf(),
        call_ensures(EcstaticStorage::owns::<T>, (&before, id), true),
        exists|storage: &mut EcstaticStorage|
            *storage == before && *final(storage) == after && #[trigger] call_ensures(
                EcstaticStorage::ecset::<T>,
                (storage, id, with),
                done,
            ),
        call_ensures(EcstaticStorage::owns::<T>, (&before, other), owned),
        call_ensures(EcstaticStorage::owns::<T>, (&after, other), owns),
    ensures
        owns == owned,
{
    before.lemma_store_valid::<T>();
    law_read_after_set(before.store::<T>(), id, with, other);
}

/// To modify a component changes nothing of who owns one.
pub proof fn law_modify_then_owns<T: Copy + Storable, F: FnOnce(&mut T)>(
    before: EcstaticStorage,
    after: EcstaticStorage,
    id: u64,
    modify: F,
    done: Result<(), ErrStorage>,
    other: u64,
    owned: bool,
    owns: bool,
)
    requires
        before.wf(),
        call_ensures(EcstaticStorage::owns::<T>, (&before, id), true),
        exists|storage: &mut EcstaticStorage|
            *storage == before && *final(storage) == after && #[trigger] call_ensures(
                EcstaticStorage::ecmodify::<T>,
                (storage, id, modify),
                done,
            ),
        call_ensures(EcstaticStorage::owns::<T>, (&before, other), owned),
        call_ensures(EcstaticStorage::owns::<T>, (&after, other), owns),
    ensures
        owns == owned,
{
    let value = choose|value: &mut T|
        *value == before.store::<T>().component(id) && #[trigger] modify.ensures((value,), ())
            && after.store::<T>() == before.store::<T>().set(id, *final(value));
    before.lemma_store_valid::<T>();
    law_read_after_set(before.store::<T>(), id, *final(value), other);
}

/// An id whose component is emptied owns none, and of every other id it is as it was.
pub proof fn law_empty_then_owns<T: Storable>(
    before: EcstaticStorage,
    after: EcstaticStorage,
    id: u64,
    done: Result<(), ErrStorage>,
    other: u64,
    owned: bool,
    owns: bool,
)
    requires
        before.wf(),
        call_ensures(EcstaticStorage::owns::<T>, (&before, id), true),
        exists|storage: &mut EcstaticStorage|
            *storage == before && *final(storage) == after && #[trigger] call_ensures(
                EcstaticStorage::ecempty::<T>,
                (storage, id),
                done,
            ),
        call_ensures(EcstaticStorage::owns::<T>, (&before, other), owned),
        call_ensures(EcstaticStorage::owns::<T>, (&after, other), owns),
    ensures
        done is Ok,
        owns == (other != id && owned),
{
    before.lemma_store_valid::<T>();
    law_empty(before.store::<T>(), id, other);
}

/// A compression changes nothing of who owns a component.
pub proof fn law_compress_then_owns<T: Copy + Storable>(
    before: EcstaticStorage,
    after: EcstaticStorage,
    done: Result<(), ErrStorage>,
    other: u64,
    owned: bool,
    owns: bool,
)
    requires
        before.wf(),
        exists|storage: &mut EcstaticStorage|
            *storage == before && *final(storage) == after && #[trigger] call_ensures(
                EcstaticStorage::compress_memory::<T>,
                (storage,),
                done,
            ),
        call_ensures(EcstaticStorage::owns::<T>, (&before, other), owned),
        call_ensures(EcstaticStorage::owns::<T>, (&after, other), owns),
    ensures
        done is Ok,
        owns == owned,
{
    before.lemma_store_valid::<T>();
    law_compress(before.store::<T>(), other);
}

/// What another id reads is not changed by an insert.
pub proof fn law_insert_keeps_reads<T: Copy + Storable>(
    before: EcstaticStorage,
    after: EcstaticStorage,
    id: u64,
    component: T,
    done: Result<(), ErrStorage>,
    other: u64,
    read_before: Result<T, ErrStorage>,
    read: Result<T, ErrStorage>,
)
    requires
        before.wf(),
        exists|storage: &mut EcstaticStorage|
            *storage == before && *final(storage) == after && #[trigger] call_ensures(
                EcstaticStorage::ecinsert::<T>,
                (storage, id, component),
                done,
            ),
        other != id,
        call_ensures(EcstaticStorage::owns::<T>, (&before, other), true),
        call_ensures(EcstaticStorage::ecread::<T>, (&before, other), read_before),
        call_ensures(EcstaticStorage::ecread::<T>, (&after, other), read),
    ensures
        read == read_before,
{
    before.lemma_store_valid::<T>();
    law_insert_keeps_others(before.store::<T>(), id, component, other);
}

/// What another id reads is not changed by a set.
pub proof fn law_set_keeps_reads<T: Copy + Storable>(
    before: EcstaticStorage,
    after: EcstaticStorage,
    id: u64,
    with: T,
    done: Result<(), ErrStorage>,
    other: u64,
    read_before: Result<T, ErrStorage>,
    read: Result<T, ErrStorage>,
)
    requires
        before.wf(),
        call_ensures(EcstaticStorage::owns::<T>, (&before, id), true),
        exists|storage: &mut EcstaticStorage|
            *storage == before && *final(storage) == after && #[trigger] call_ensures(
                EcstaticStorage::ecset::<T>,
                (storage, id, with),
                done,
            ),
        other != id,
        call_ensures(EcstaticStorage::owns::<T>, (&before, other), true),
        call_ensures(EcstaticStorage::ecread::<T>, (&before, other), read_before),
        call_ensures(EcstaticStorage::ecread::<T>, (&after, other), read),
    ensures
        read == read_before,
{
    before.lemma_store_valid::<T>();
    law_read_after_set(before.store::<T>(), id, with, other);
}

/// What another id reads is not changed by a modification.
pub proof fn law_modify_keeps_reads<T: Copy + Storable, F: FnOnce(&mut T)>(
    before: EcstaticStorage,
    after: EcstaticStorage,
    id: u64,
    modify: F,
    done: Result<(), ErrStorage>,
    other: u64,
    read_before: Result<T, ErrStorage>,
    read: Result<T, ErrStorage>,
)
    requires
        before.wf(),
        call_ensures(EcstaticStorage::owns::<T>, (&before, id), true),
        exists|storage: &mut EcstaticStorage|
            *storage == before && *final(storage) == after && #[trigger] call_ensures(
                EcstaticStorage::ecmodify::<T>,
                (storage, id, modify),
                done,
            ),
        other != id,
        call_ensures(EcstaticStorage::owns::<T>, (&before, other), true),
        call_ensures(EcstaticStorage::ecread::<T>, (&before, other), read_before),
        call_ensures(EcstaticStorage::ecread::<T>, (&after, other), read),
    ensures
        read == read_before,
{
    let value = choose|value: &mut T|
        *value == before.store::<T>().component(id) && #[trigger] modify.ensures((value,), ())
            && after.store::<T>() == before.store::<T>().set(id, *final(value));
    before.lemma_store_valid::<T>();
    law_read_after_set(before.store::<T>(), id, *final(value), other);
}

/// What another id reads is not changed when a component is emptied.
pub proof fn law_empty_keeps_reads<T: Copy + Storable>(
    before: EcstaticStorage,
    after: EcstaticStorage,
    id: u64,
    done: Result<(), ErrStorage>,
    other: u64,
    read_before: Result<T, ErrStorage>,
    read: Result<T, ErrStorage>,
)
    requires
        before.wf(),
        call_ensures(EcstaticStorage::owns::<T>, (&before, id), true),
        exists|storage: &mut EcstaticStorage|
            *storage == before && *final(storage) == after && #[trigger] call_ensures(
                EcstaticStorage::ecempty::<T>,
                (storage, id),
                done,
            ),
        other != id,
        call_ensures(EcstaticStorage::owns::<T>, (&before, other), true),
        call_ensures(EcstaticStorage::ecread::<T>, (&before, other), read_before),
        call_ensures(EcstaticStorage::ecread::<T>, (&after, other), read),
    ensures
        read == read_before,
{
    before.lemma_store_valid::<T>();
    law_empty(before.store::<T>(), id, other);
}

/// What an id reads is not changed by a compression.
pub proof fn law_compress_keeps_reads<T: Copy + Storable>(
    before: EcstaticStorage,
    after: EcstaticStorage,
    done: Result<(), ErrStorage>,
    other: u64,
    read_before: Result<T, ErrStorage>,
    read: Result<T, ErrStorage>,
)
    requires
        before.wf(),
        exists|storage: &mut EcstaticStorage|
            *storage == before && *final(storage) == after && #[trigger] call_ensures(
                EcstaticStorage::compress_memory::<T>,
                (storage,),
                done,
            ),
        call_ensures(EcstaticStorage::owns::<T>, (&before, other), true),
        call_ensures(EcstaticStorage::ecread::<T>, (&before, other), read_before),
        call_ensures(EcstaticStorage::ecread::<T>, (&after, other), read),
    ensures
        read == read_before,
{
    before.lemma_store_valid::<T>();
    law_compress(before.store::<T>(), other);
}

/// An insert adds one to the count, and adds a slot just where none was empty. The first insert of
/// a type makes the count and the capacity one.
pub proof fn law_insert_then_count<T: Storable>(
    before: EcstaticStorage,
    after: EcstaticStorage,
    id: u64,
    component: T,
    done: Result<(), ErrStorage>,
    len_before: Result<usize, ErrStorage>,
    len: Result<usize, ErrStorage>,
    capacity_before: Result<usize, ErrStorage>,
    capacity: Result<usize, ErrStorage>,
)
    requires
        before.wf(),
        exists|storage: &mut EcstaticStorage|
            *storage == before && *final(storage) == after && #[trigger] call_ensures(
                EcstaticStorage::ecinsert::<T>,
                (storage, id, component),
                done,
            ),
        call_ensures(EcstaticStorage::len::<T>, (&before,), len_before),
        call_ensures(EcstaticStorage::len::<T>, (&after,), len),
        call_ensures(EcstaticStorage::capacity::<T>, (&before,), capacity_before),
        call_ensures(EcstaticStorage::capacity::<T>, (&after,), capacity),
    ensures
        len_before is Ok <==> capacity_before is Ok,
        len is Ok,
        capacity is Ok,
        len_before is Err ==> len->Ok_0 == 1 && capacity->Ok_0 == 1,
        len_before is Ok ==> len->Ok_0 == len_before->Ok_0 + 1,
        len_before is Ok ==> capacity->Ok_0 == if len_before->Ok_0 < capacity_before->Ok_0 {
            capacity_before->Ok_0 as int
        } else {
            capacity_before->Ok_0 + 1
        },
{
    law_insert_reuses_empty_slots(before.store::<T>(), id, component);
    law_len_and_capacity(before.store::<T>());
}

/// To set a component changes neither the count nor the capacity.
pub proof fn law_set_then_count<T: Storable>(
    before: EcstaticStorage,
    after: EcstaticStorage,
    id: u64,
    with: T,
    done: Result<(), ErrStorage>,
    len_before: Result<usize, ErrStorage>,
    len: Result<usize, ErrStorage>,
    capacity_before: Result<usize, ErrStorage>,
    capacity: Result<usize, ErrStorage>,
)
    requires
        before.wf(),
        call_ensures(EcstaticStorage::owns::<T>, (&before, id), true),
        exists|storage: &mut EcstaticStorage|
            *storage == before && *final(storage) == after && #[trigger] call_ensures(
                EcstaticStorage::ecset::<T>,
                (storage, id, with),
                done,
            ),
        call_ensures(EcstaticStorage::len::<T>, (&before,), len_before),
        call_ensures(EcstaticStorage::len::<T>, (&after,), len),
        call_ensures(EcstaticStorage::capacity::<T>, (&before,), capacity_before),
        call_ensures(EcstaticStorage::capacity::<T>, (&after,), capacity),
    ensures
        len is Ok,
        len_before is Ok,
        len->Ok_0 == len_before->Ok_0,
        capacity is Ok,
        capacity_before is Ok,
        capacity->Ok_0 == capacity_before->Ok_0,
{
    before.lemma_store_valid::<T>();
    before.lemma_owner_is_known::<T>(id);
    law_read_after_set(before.store::<T>(), id, with, id);
}

/// To modify a component changes neither the count nor the capacity.
pub proof fn law_modify_then_count<T: Copy + Storable, F: FnOnce(&mut T)>(
    before: EcstaticStorage,
    after: EcstaticStorage,
    id: u64,
    modify: F,
    done: Result<(), ErrStorage>,
    len_before: Result<usize, ErrStorage>,
    len: Result<usize, ErrStorage>,
    capacity_before: Result<usize, ErrStorage>,
    capacity: Result<usize, ErrStorage>,
)
    requires
        before.wf(),
        call_ensures(EcstaticStorage::owns::<T>, (&before, id), true),
        exists|storage: &mut EcstaticStorage|
            *storage == before && *final(storage) == after && #[trigger] call_ensures(
                EcstaticStorage::ecmodify::<T>,
                (storage, id, modify),
                done,
            ),
        call_ensures(EcstaticStorage::len::<T>, (&before,), len_before),
        call_ensures(EcstaticStorage::len::<T>, (&after,), len),
        call_ensures(EcstaticStorage::capacity::<T>, (&before,), capacity_before),
        call_ensures(EcstaticStorage::capacity::<T>, (&after,), capacity),
    ensures
        len is Ok,
        len_before is Ok,
        len->Ok_0 == len_before->Ok_0,
        capacity is Ok,
        capacity_before is Ok,
        capacity->Ok_0 == capacity_before->Ok_0,
{
    let value = choose|value: &mut T|
        *value == before.store::<T>().component(id) && #[trigger] modify.ensures((value,), ())
            && after.store::<T>() == before.store::<T>().set(id, *final(value));
    before.lemma_store_valid::<T>();
    before.lemma_owner_is_known::<T>(id);
    law_read_after_set(before.store::<T>(), id, *final(value), id);
}

/// To empty a component takes one off the count, and leaves the capacity.
pub proof fn law_empty_then_count<T: Storable>(
    before: EcstaticStorage,
    after: EcstaticStorage,
    id: u64,
    done: Result<(), ErrStorage>,
    len_before: Result<usize, ErrStorage>,
    len: Result<usize, ErrStorage>,
    capacity_before: Result<usize, ErrStorage>,
    capacity: Result<usize, ErrStorage>,
)
    requires
        before.wf(),
        call_ensures(EcstaticStorage::owns::<T>, (&before, id), true),
        exists|storage: &mut EcstaticStorage|
            *storage == before && *final(storage) == after && #[trigger] call_ensures(
                EcstaticStorage::ecempty::<T>,
                (storage, id),
                done,
            ),
        call_ensures(EcstaticStorage::len::<T>, (&before,), len_before),
        call_ensures(EcstaticStorage::len::<T>, (&after,), len),
        call_ensures(EcstaticStorage::capacity::<T>, (&before,), capacity_before),
        call_ensures(EcstaticStorage::capacity::<T>, (&after,), capacity),
    ensures
        len is Ok,
        len_before is Ok,
        len->Ok_0 == len_before->Ok_0 - 1,
        capacity is Ok,
        capacity_before is Ok,
        capacity->Ok_0 == capacity_before->Ok_0,
{
    before.lemma_store_valid::<T>();
    before.lemma_owner_is_known::<T>(id);
    law_empty(before.store::<T>(), id, id);
}

/// A compression leaves the count, and makes the capacity equal to it.
pub proof fn law_compress_then_count<T: Copy + Storable>(
    before: EcstaticStorage,
    after: EcstaticStorage,
    done: Result<(), ErrStorage>,
    len_before: Result<usize, ErrStorage>,
    len: Result<usize, ErrStorage>,
    capacity_before: Result<usize, ErrStorage>,
    capacity: Result<usize, ErrStorage>,
)
    requires
        before.wf(),
        exists|storage: &mut EcstaticStorage|
            *storage == before && *final(storage) == after && #[trigger] call_ensures(
                EcstaticStorage::compress_memory::<T>,
                (storage,),
                done,
            ),
        before.known::<T>(),
        call_ensures(EcstaticStorage::len::<T>, (&before,), len_before),
        call_ensures(EcstaticStorage::len::<T>, (&after,), len),
        call_ensures(EcstaticStorage::capacity::<T>, (&before,), capacity_before),
        call_ensures(EcstaticStorage::capacity::<T>, (&after,), capacity),
    ensures
        len is Ok,
        len_before is Ok,
        len->Ok_0 == len_before->Ok_0,
        capacity is Ok,
        capacity_before is Ok,
        capacity->Ok_0 == len_before->Ok_0,
{
    before.lemma_store_valid::<T>();
    law_compress(before.store::<T>(), 0);
}

/// An insert of one type changes nothing that another type shows.
pub proof fn law_insert_keeps_other_types<T: Storable, U: Copy + Storable>(
    before: EcstaticStorage,
    after: EcstaticStorage,
    id: u64,
    component: T,
    done: Result<(), ErrStorage>,
    other: u64,
    owned: bool,
    owns: bool,
    len_before: Result<usize, ErrStorage>,
    len: Result<usize, ErrStorage>,
    capacity_before: Result<usize, ErrStorage>,
    capacity: Result<usize, ErrStorage>,
    read_before: Result<U, ErrStorage>,
    read: Result<U, ErrStorage>,
)
    requires
        exists|storage: &mut EcstaticStorage|
            *storage == before && *final(storage) == after && #[trigger] call_ensures(
                EcstaticStorage::ecinsert::<T>,
                (storage, id, component),
                done,
            ),
        type_id::<T>() != type_id::<U>(),
        call_ensures(EcstaticStorage::owns::<U>, (&before, other), owned),
        call_ensures(EcstaticStorage::owns::<U>, (&after, other), owns),
        call_ensures(EcstaticStorage::len::<U>, (&before,), len_before),
        call_ensures(EcstaticStorage::len::<U>, (&after,), len),
        call_ensures(EcstaticStorage::capacity::<U>, (&before,), capacity_before),
        call_ensures(EcstaticStorage::capacity::<U>, (&after,), capacity),
        call_ensures(EcstaticStorage::ecread::<U>, (&before, other), read_before),
        call_ensures(EcstaticStorage::ecread::<U>, (&after, other), read),
    ensures
        owns == owned,
        len is Ok <==> len_before is Ok,
        len is Ok ==> len->Ok_0 == len_before->Ok_0,
        capacity is Ok <==> capacity_before is Ok,
        capacity is Ok ==> capacity->Ok_0 == capacity_before->Ok_0,
        read == read_before,
{
    law_types_are_apart::<T, U>(before, after);
}

/// To set a component of one type changes nothing that another type shows.
pub proof fn law_set_keeps_other_types<T: Storable, U: Copy + Storable>(
    before: EcstaticStorage,
    after: EcstaticStorage,
    id: u64,
    with: T,
    done: Result<(), ErrStorage>,
    other: u64,
    owned: bool,
    owns: bool,
    len_before: Result<usize, ErrStorage>,
    len: Result<usize, ErrStorage>,
    capacity_before: Result<usize, ErrStorage>,
    capacity: Result<usize, ErrStorage>,
    read_before: Result<U, ErrStorage>,
    read: Result<U, ErrStorage>,
)
    requires
        call_ensures(EcstaticStorage::owns::<T>, (&before, id), true),
        exists|storage: &mut EcstaticStorage|
            *storage == before && *final(storage) == after && #[trigger] call_ensures(
                EcstaticStorage::ecset::<T>,
                (storage, id, with),
                done,
            ),
        type_id::<T>() != type_id::<U>(),
        call_ensures(EcstaticStorage::owns::<U>, (&before, other), owned),
        call_ensures(EcstaticStorage::owns::<U>, (&after, other), owns),
        call_ensures(EcstaticStorage::len::<U>, (&before,), len_before),
        call_ensures(EcstaticStorage::len::<U>, (&after,), len),
        call_ensures(EcstaticStorage::capacity::<U>, (&before,), capacity_before),
        call_ensures(EcstaticStorage::capacity::<U>, (&after,), capacity),
        call_ensures(EcstaticStorage::ecread::<U>, (&before, other), read_before),
        call_ensures(EcstaticStorage::ecread::<U>, (&after, other), read),
    ensures
        owns == owned,
        len is Ok <==> len_before is Ok,
        len is Ok ==> len->Ok_0 == len_before->Ok_0,
        capacity is Ok <==> capacity_before is Ok,
        capacity is Ok ==> capacity->Ok_0 == capacity_before->Ok_0,
        read == read_before,
{
    law_types_are_apart::<T, U>(before, after);
}

/// To modify a component of one type changes nothing that another type shows.
pub proof fn law_modify_keeps_other_types<
    T: Copy + Storable,
    U: Copy + Storable,
    F: FnOnce(&mut T),
>(
    before: EcstaticStorage,
    after: EcstaticStorage,
    id: u64,
    modify: F,
    done: Result<(), ErrStorage>,
    other: u64,
    owned: bool,
    owns: bool,
    len_before: Result<usize, ErrStorage>,
    len: Result<usize, ErrStorage>,
    capacity_before: Result<usize, ErrStorage>,
    capacity: Result<usize, ErrStorage>,
    read_before: Result<U, ErrStorage>,
    read: Result<U, ErrStorage>,
)
    requires
        call_ensures(EcstaticStorage::owns::<T>, (&before, id), true),
        exists|storage: &mut EcstaticStorage|
            *storage == before && *final(storage) == after && #[trigger] call_ensures(
                EcstaticStorage::ecmodify::<T>,
                (storage, id, modify),
                done,
            ),
        type_id::<T>() != type_id::<U>(),
        call_ensures(EcstaticStorage::owns::<U>, (&before, other), owned),
        call_ensures(EcstaticStorage::owns::<U>, (&after, other), owns),
        call_ensures(EcstaticStorage::len::<U>, (&before,), len_before),
        call_ensures(EcstaticStorage::len::<U>, (&after,), len),
        call_ensures(EcstaticStorage::capacity::<U>, (&before,), capacity_before),
        call_ensures(EcstaticStorage::capacity::<U>, (&after,), capacity),
        call_ensures(EcstaticStorage::ecread::<U>, (&before, other), read_before),
        call_ensures(EcstaticStorage::ecread::<U>, (&after, other), read),
    ensures
        owns == owned,
        len is Ok <==> len_before is Ok,
        len is Ok ==> len->Ok_0 == len_before->Ok_0,
        capacity is Ok <==> capacity_before is Ok,
        capacity is Ok ==> capacity->Ok_0 == capacity_before->Ok_0,
        read == read_before,
{
    law_types_are_apart::<T, U>(before, after);
}

/// To empty a component of one type changes nothing that another type shows.
pub proof fn law_empty_keeps_other_types<T: Storable, U: Copy + Storable>(
    before: EcstaticStorage,
    after: EcstaticStorage,
    id: u64,
    done: Result<(), ErrStorage>,
    other: u64,
    owned: bool,
    owns: bool,
    len_before: Result<usize, ErrStorage>,
    len: Result<usize, ErrStorage>,
    capacity_before: Result<usize, ErrStorage>,
    capacity: Result<usize, ErrStorage>,
    read_before: Result<U, ErrStorage>,
    read: Result<U, ErrStorage>,
)
    requires
        call_ensures(EcstaticStorage::owns::<T>, (&before, id), true),
        exists|storage: &mut EcstaticStorage|
            *storage == before && *final(storage) == after && #[trigger] call_ensures(
                EcstaticStorage::ecempty::<T>,
                (storage, id),
                done,
            ),
        type_id::<T>() != type_id::<U>(),
        call_ensures(EcstaticStorage::owns::<U>, (&before, other), owned),
        call_ensures(EcstaticStorage::owns::<U>, (&after, other), owns),
        call_ensures(EcstaticStorage::len::<U>, (&before,), len_before),
        call_ensures(EcstaticStorage::len::<U>, (&after,), len),
        call_ensures(EcstaticStorage::capacity::<U>, (&before,), capacity_before),
        call_ensures(EcstaticStorage::capacity::<U>, (&after,), capacity),
        call_ensures(EcstaticStorage::ecread::<U>, (&before, other), read_before),
        call_ensures(EcstaticStorage::ecread::<U>, (&after, other), read),
    ensures
        owns == owned,
        len is Ok <==> len_before is Ok,
        len is Ok ==> len->Ok_0 == len_before->Ok_0,
        capacity is Ok <==> capacity_before is Ok,
        capacity is Ok ==> capacity->Ok_0 == capacity_before->Ok_0,
        read == read_before,
{
    law_types_are_apart::<T, U>(before, after);
}

/// A compression of one type changes nothing that another type shows.
pub proof fn law_compress_keeps_other_types<T: Copy + Storable, U: Copy + Storable>(
    before: EcstaticStorage,
    after: EcstaticStorage,
    done: Result<(), ErrStorage>,
    other: u64,
    owned: bool,
    owns: bool,
    len_before: Result<usize, ErrStorage>,
    len: Result<usize, ErrStorage>,
    capacity_before: Result<usize, ErrStorage>,
    capacity: Result<usize, ErrStorage>,
    read_before: Result<U, ErrStorage>,
    read: Result<U, ErrStorage>,
)
    requires
        exists|storage: &mut EcstaticStorage|
            *storage == before && *final(storage) == after && #[trigger] call_ensures(
                EcstaticStorage::compress_memory::<T>,
                (storage,),
                done,
            ),
        type_id::<T>() != type_id::<U>(),
        call_ensures(EcstaticStorage::owns::<U>, (&before, other), owned),
        call_ensures(EcstaticStorage::owns::<U>, (&after, other), owns),
        call_ensures(EcstaticStorage::len::<U>, (&before,), len_before),
        call_ensures(EcstaticStorage::len::<U>, (&after,), len),
        call_ensures(EcstaticStorage::capacity::<U>, (&before,), capacity_before),
        call_ensures(EcstaticStorage::capacity::<U>, (&after,), capacity),
        call_ensures(EcstaticStorage::ecread::<U>, (&before, other), read_before),
        call_ensures(EcstaticStorage::ecread::<U>, (&after, other), read),
    ensures
        owns == owned,
        len is Ok <==> len_before is Ok,
        len is Ok ==> len->Ok_0 == len_before->Ok_0,
        capacity is Ok <==> capacity_before is Ok,
        capacity is Ok ==> capacity->Ok_0 == capacity_before->Ok_0,
        read == read_before,
{
    law_types_are_apart::<T, U>(before, after);
}

/// An insert puts the component into the first slot that was empty, or into a new one after the
/// last if none was, and changes no other slot.
pub proof fn law_insert_fills_first_empty_slot<T: Storable>(
    before: EcstaticStorage,
    after: EcstaticStorage,
    id: u64,
    component: T,
    done: Result<(), ErrStorage>,
    dump_before: ComponentDump<'_, T>,
    dump: ComponentDump<'_, T>,
)
    requires
        exists|storage: &mut EcstaticStorage|
            *storage == before && *final(storage) == after && #[trigger] call_ensures(
                EcstaticStorage::ecinsert::<T>,
                (storage, id, component),
                done,
            ),
        call_ensures(EcstaticStorage::debug_dump_components::<T>, (&before,), dump_before),
        call_ensures(EcstaticStorage::debug_dump_components::<T>, (&after,), dump),
    ensures
        exists|i: int|
            {
                &&& 0 <= i <= dump_before.components@.len()
                &&& i < dump_before.components@.len() ==> dump_before.components@[i] is None
                &&& forall|j: int| 0 <= j < i ==> #[trigger] dump_before.components@[j] is Some
                &&& #[trigger] dump.components@[i] == Some(&component)
                &&& dump.components@ == if i < dump_before.components@.len() {
                    dump_before.components@.update(i, Some(&component))
                } else {
                    dump_before.components@.push(Some(&component))
                }
            },
{
    let store = before.store::<T>();
    let i = store.next_index();
    store.lemma_next_index_exists();
    assert(store.is_next_index(i));
    assert forall|j: int| 0 <= j < i implies #[trigger] dump_before.components@[j] is Some by {
        assert(store.values[j] is Some);
    }
    assert(dump.components@ =~= if i < dump_before.components@.len() {
        dump_before.components@.update(i, Some(&component))
    } else {
        dump_before.components@.push(Some(&component))
    });
    assert(dump.components@[i] == Some(&component));
}

/// To set a component writes the slot that held what the id read, and changes no other slot.
pub proof fn law_set_writes_one_slot<T: Copy + Storable>(
    before: EcstaticStorage,
    after: EcstaticStorage,
    id: u64,
    with: T,
    done: Result<(), ErrStorage>,
    read_before: Result<T, ErrStorage>,
    dump_before: ComponentDump<'_, T>,
    dump: ComponentDump<'_, T>,
)
    requires
        before.wf(),
        call_ensures(EcstaticStorage::owns::<T>, (&before, id), true),
        exists|storage: &mut EcstaticStorage|
            *storage == before && *final(storage) == after && #[trigger] call_ensures(
                EcstaticStorage::ecset::<T>,
                (storage, id, with),
                done,
            ),
        call_ensures(EcstaticStorage::ecread::<T>, (&before, id), read_before),
        call_ensures(EcstaticStorage::debug_dump_components::<T>, (&before,), dump_before),
        call_ensures(EcstaticStorage::debug_dump_components::<T>, (&after,), dump),
    ensures
        exists|i: int|
            {
                &&& 0 <= i < dump_before.components@.len()
                &&& dump_before.components@[i] is Some
                &&& read_before == Ok::<T, ErrStorage>(*dump_before.components@[i]->0)
                &&& dump.components@ == dump_before.components@.update(i, Some(&with))
            },
{
    before.lemma_store_valid::<T>();
    let i = before.store::<T>().owners[id];
    assert(before.store::<T>().occupied(i));
    assert(dump_before.components@[i] is Some);
    assert(dump.components@ =~= dump_before.components@.update(i, Some(&with)));
}

/// To empty a component clears the slot that held what the id read, and changes no other slot.
pub proof fn law_empty_clears_one_slot<T: Copy + Storable>(
    before: EcstaticStorage,
    after: EcstaticStorage,
    id: u64,
    done: Result<(), ErrStorage>,
    read_before: Result<T, ErrStorage>,
    dump_before: ComponentDump<'_, T>,
    dump: ComponentDump<'_, T>,
)
    requires
        before.wf(),
        call_ensures(EcstaticStorage::owns::<T>, (&before, id), true),
        exists|storage: &mut EcstaticStorage|
            *storage == before && *final(storage) == after && #[trigger] call_ensures(
                EcstaticStorage::ecempty::<T>,
                (storage, id),
                done,
            ),
        call_ensures(EcstaticStorage::ecread::<T>, (&before, id), read_before),
        call_ensures(EcstaticStorage::debug_dump_components::<T>, (&before,), dump_before),
        call_ensures(EcstaticStorage::debug_dump_components::<T>, (&after,), dump),
    ensures
        exists|i: int|
            {
                &&& 0 <= i < dump_before.components@.len()
                &&& dump_before.components@[i] is Some
                &&& read_before == Ok::<T, ErrStorage>(*dump_before.components@[i]->0)
                &&& dump.components@ == dump_before.components@.update(i, None)
            },
{
    before.lemma_store_valid::<T>();
    let i = before.store::<T>().owners[id];
    assert(before.store::<T>().occupied(i));
    assert(dump_before.components@[i] is Some);
    assert(dump.components@ =~= dump_before.components@.update(i, None));
}

/// A compression keeps each component, whether an id owns it or not, and their order, and leaves no
/// empty slot: `from` are the slots that were not empty.
pub proof fn law_compress_keeps_components_in_order<T: Copy + Storable>(
    before: EcstaticStorage,
    after: EcstaticStorage,
    done: Result<(), ErrStorage>,
    dump_before: ComponentDump<'_, T>,
    dump: ComponentDump<'_, T>,
)
    requires
        exists|storage: &mut EcstaticStorage|
            *storage == before && *final(storage) == after && #[trigger] call_ensures(
                EcstaticStorage::compress_memory::<T>,
                (storage,),
                done,
            ),
        call_ensures(EcstaticStorage::debug_dump_components::<T>, (&before,), dump_before),
        call_ensures(EcstaticStorage::debug_dump_components::<T>, (&after,), dump),
    ensures
        exists|from: Seq<int>|
            {
                &&& dump.components@.len() == from.len()
                &&& forall|k: int|
                    0 <= k < from.len() ==> 0 <= #[trigger] from[k]
                        < dump_before.components@.len() && dump_before.components@[from[k]] is Some
                        && dump.components@[k] == dump_before.components@[from[k]]
                &&& forall|j: int, k: int|
                    0 <= j < k < from.len() ==> #[trigger] from[j] < #[trigger] from[k]
                &&& forall|i: int|
                    0 <= i < dump_before.components@.len() && #[trigger]
                    dump_before.components@[i] is Some ==> from.contains(i)
            },
{
    let values = before.store::<T>().values;
    let from = lemma_enumeration(values);
    lemma_enumerated(values, from);
    assert forall|k: int| 0 <= k < from.len() implies 0 <= #[trigger] from[k]
        < dump_before.components@.len() && dump_before.components@[from[k]] is Some
        && dump.components@[k] == dump_before.components@[from[k]] by {
        assert(after.store::<T>().values[k] == values[from[k]]);
        assert(dump.components@[k] is Some);
    }
    assert forall|i: int|
        0 <= i < dump_before.components@.len() && #[trigger]
        dump_before.components@[i] is Some implies from.contains(i) by {
        assert(values[i] is Some);
    }
}

/// What the two dumps and the two counts of a storage show agree.
pub proof fn law_dumps_agree<T: Storable>(
    storage: EcstaticStorage,
    components: ComponentDump<'_, T>,
    indices: IndexDump,
    len: Result<usize, ErrStorage>,
    capacity: Result<usize, ErrStorage>,
)
    requires
        storage.known::<T>(),
        call_ensures(EcstaticStorage::debug_dump_components::<T>, (&storage,), components),
        call_ensures(EcstaticStorage::debug_dump_indices::<T>, (&storage,), indices),
        call_ensures(EcstaticStorage::len::<T>, (&storage,), len),
        call_ensures(EcstaticStorage::capacity::<T>, (&storage,), capacity),
    ensures
        capacity is Ok,
        capacity->Ok_0 == components.components@.len(),
        components.capacity >= capacity->Ok_0,
        len is Ok,
        len->Ok_0 == indices.packed@.len(),
        indices.packed@.len() + indices.free@.len() == capacity->Ok_0,
        forall|i: usize| #[trigger]
            indices.packed@.contains(i) <==> i < components.components@.len()
                && components.components@[i as int] is Some,
        forall|i: usize| #[trigger]
            indices.free@.contains(i) <==> i < components.components@.len()
                && components.components@[i as int] is None,
        forall|j: int, k: int|
            0 <= j < k < indices.packed@.len() ==> #[trigger] indices.packed@[j]
                < #[trigger] indices.packed@[k],
        forall|j: int, k: int|
            0 <= j < k < indices.free@.len() ==> #[trigger] indices.free@[j]
                < #[trigger] indices.free@[k],
{
    let values = storage.store::<T>().values;
    let packed = indices.packed@.to_set();
    let free = indices.free@.to_set();
    indices.packed@.unique_seq_to_set();
    indices.free@.unique_seq_to_set();
    lemma_len_of_indices(values, packed);
    assert forall|i: usize| #[trigger]
        indices.packed@.contains(i) <==> i < components.components@.len()
            && components.components@[i as int] is Some by {
        assert(storage.store::<T>().occupied(i as int) <==> i < values.len()
            && values[i as int] is Some);
    }
    let all = Set::new(|i: usize| i < values.len());
    vstd::set_lib::lemma_set_disjoint_lens(packed, free);
    assert(packed + free =~= all);
    lemma_below(values.len() as usize);
}

/// An id that owns a component reads one that the dump shows.
pub proof fn law_dump_shows_what_ids_read<T: Copy + Storable>(
    storage: EcstaticStorage,
    id: u64,
    read: Result<T, ErrStorage>,
    dump: ComponentDump<'_, T>,
)
    requires
        storage.wf(),
        call_ensures(EcstaticStorage::owns::<T>, (&storage, id), true),
        call_ensures(EcstaticStorage::ecread::<T>, (&storage, id), read),
        call_ensures(EcstaticStorage::debug_dump_components::<T>, (&storage,), dump),
    ensures
        exists|i: int|
            {
                &&& 0 <= i < dump.components@.len()
                &&& #[trigger] dump.components@[i] is Some
                &&& read == Ok::<T, ErrStorage>(*dump.components@[i]->0)
            },
{
    storage.lemma_store_valid::<T>();
    let i = storage.store::<T>().owners[id];
    assert(storage.store::<T>().occupied(i));
    assert(dump.components@[i] is Some);
}

/// A type is the same as itself and as none of another kind.
pub proof fn law_same_type<T: Storable, U: Storable>(itself: bool, same: bool, other_way: bool)
    requires
        call_ensures(same_type_as::<T, T>, (), itself),
        call_ensures(same_type_as::<T, U>, (), same),
        call_ensures(same_type_as::<U, T>, (), other_way),
    ensures
        itself,
        same == other_way,
        T::kind() != U::kind() ==> !same,
{
}

/// After a compression the allocated capacity that the dump shows is that of a vector as
/// `Vec::shrink_to_fit` hands it back, when it is called on the slots that are left: nothing was
/// done to the vector since.
pub(crate) proof fn law_compress_gives_back_memory<T: Copy + Storable>(
    before: EcstaticStorage,
    after: EcstaticStorage,
    done: Result<(), ErrStorage>,
    len: Result<usize, ErrStorage>,
    dump: ComponentDump<'_, T>,
)
    requires
        before.known::<T>(),
        exists|storage: &mut EcstaticStorage|
            *storage == before && *final(storage) == after && #[trigger] call_ensures(
                EcstaticStorage::compress_memory::<T>,
                (storage,),
                done,
            ),
        call_ensures(EcstaticStorage::len::<T>, (&before,), len),
        call_ensures(EcstaticStorage::debug_dump_components::<T>, (&after,), dump),
    ensures
        exists|kept: Vec<Slot>, fitted: Vec<Slot>|
            {
                &&& kept@.len() == len->Ok_0
                &&& #[trigger] call_ensures(shrunk::<Slot>, (kept,), fitted)
                &&& #[trigger] call_ensures(allocated::<Slot>, (&fitted,), dump.capacity)
            },
{
    after.lemma_memory::<T>(dump.capacity);
}

/// The allocated capacity that the dump shows is that of a vector with the slots it shows.
pub(crate) proof fn law_dump_shows_allocated_capacity<T: Storable>(
    storage: EcstaticStorage,
    dump: ComponentDump<'_, T>,
)
    requires
        storage.wf(),
        storage.known::<T>(),
        call_ensures(EcstaticStorage::debug_dump_components::<T>, (&storage,), dump),
    ensures
        exists|slots: Vec<Slot>|
            {
                &&& slots@.len() == dump.components@.len()
                &&& #[trigger] call_ensures(allocated::<Slot>, (&slots,), dump.capacity)
            },
{
    storage.lemma_allocated::<T>(dump.capacity);
}

/// The key of a length of time is the whole digest of a new hasher that is fed this length of
/// time, so two keys are the same just where the digests are.
pub(crate) proof fn law_key_is_the_digest(
    elapsed: Duration,
    key: u64,
    other: Duration,
    other_key: u64,
)
    requires
        call_ensures(EcstaticStorage::key_from, (&elapsed,), key),
        call_ensures(EcstaticStorage::key_from, (&other,), other_key),
    ensures
        exists|a: DefaultHasher, b: DefaultHasher, c: DefaultHasher, d: DefaultHasher|
            {
                &&& a@ == Seq::<Seq<u8>>::empty()
                &&& c@ == Seq::<Seq<u8>>::empty()
                &&& #[trigger] call_ensures(fed, (&elapsed, a), b)
                &&& #[trigger] call_ensures(fed, (&other, c), d)
                &&& key == DefaultHasher::spec_finish(b@)
                &&& other_key == DefaultHasher::spec_finish(d@)
                &&& key == other_key <==> DefaultHasher::spec_finish(b@)
                    == DefaultHasher::spec_finish(d@)
            },
{
    EcstaticStorage::lemma_key_from(elapsed, key);
    EcstaticStorage::lemma_key_from(other, other_key);
}

/// A generated key is the whole digest of a new hasher that is fed the time since the Unix epoch
/// as the clock showed it or, if the clock showed an earlier time, nothing.
pub(crate) proof fn law_generated_key_is_the_digest(key: u64)
    requires
        call_ensures(EcstaticStorage::generate_key, (), key),
    ensures
        exists|now: SystemTime, elapsed: Result<Duration, SystemTimeError>|
            {
                &&& call_ensures(SystemTime::now, (), now)
                &&& #[trigger] call_ensures(since_epoch, (&now,), elapsed)
                &&& elapsed is Err ==> key == DefaultHasher::spec_finish(Seq::<Seq<u8>>::empty())
                &&& elapsed is Ok ==> exists|a: DefaultHasher, b: DefaultHasher|
                    {
                        &&& a@ == Seq::<Seq<u8>>::empty()
                        &&& #[trigger] call_ensures(fed, (&elapsed->Ok_0, a), b)
                        &&& key == DefaultHasher::spec_finish(b@)
                    }
            },
{
    EcstaticStorage::lemma_key_now(key);
}

/// The indices of the slots that are not empty.
proof fn lemma_enumeration<T>(values: Seq<Option<T>>) -> (from: Seq<int>)
    ensures
        enumerates(values, from),
    decreases values.len(),
{
    if values.len() == 0 {
        Seq::empty()
    } else {
        let before = values.drop_last();
        let from = lemma_enumeration(before);
        let last = values.len() - 1;
        let all = if values.last() is Some {
            from.push(last)
        } else {
            from
        };
        assert forall|k: int| 0 <= k < all.len() implies 0 <= #[trigger] all[k] < values.len()
            && values[all[k]] is Some by {
            if k < from.len() {
                assert(all[k] == from[k]);
                assert(before[from[k]] == values[from[k]]);
            }
        }
        assert forall|i: int|
            0 <= i < values.len() && #[trigger] values[i] is Some implies all.contains(i) by {
            if i < last {
                assert(before[i] is Some);
                let k = choose|k: int| 0 <= k < from.len() && from[k] == i;
                assert(all[k] == i);
            } else {
                assert(all[from.len() as int] == i);
            }
        }
        all
    }
}

/// There are `n` indices below `n`.
proof fn lemma_below(n: usize)
    ensures
        Set::new(|i: usize| i < n).len() == n,
        Set::new(|i: usize| i < n).finite(),
    decreases n,
{
    let below = Set::new(|i: usize| i < n);
    if n == 0 {
        assert(below =~= Set::<usize>::empty());
    } else {
        let m = (n - 1) as usize;
        lemma_below(m);
        assert(below =~= Set::new(|i: usize| i < m).insert(m));
    }
}

} // verus!
