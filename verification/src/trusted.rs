//! The parts of `std` that the library calls and that `vstd` leaves unspecified. What is stated
//! of them here is taken on trust, as is what [`crate::component`] states of boxed values.

use std::any::TypeId;
use std::collections::hash_map::DefaultHasher;
use std::collections::BTreeSet;
use std::hash::Hash;
use std::time::{Duration, SystemTime, SystemTimeError, UNIX_EPOCH};

use vstd::prelude::*;

use crate::storable::{Kind, Storable};

verus! {

/// `std::any::TypeId`, an opaque value that stands for a type.
#[verifier::external_type_specification]
#[verifier::external_body]
pub struct ExTypeId(TypeId);

/// `TypeId::of`. Nothing is claimed of the result here; the declaration lets [`type_id`] speak
/// of it.
pub assume_specification<T: ?Sized + 'static>[ TypeId::of::<T> ]() -> (id: TypeId);

/// The identifier that `TypeId::of` returns for `T`.
pub open spec fn type_id<T: Storable>() -> TypeId {
    choose|id: TypeId| call_ensures(TypeId::of::<T>, (), id)
}

/// The kind of the type that `TypeId::of` returns an identifier for.
pub uninterp spec fn kind_of(id: TypeId) -> Kind;

/// The identifier of `T` is one of a type of its kind. Where that is known of two types of
/// different kinds, so is that their identifiers differ.
pub open spec fn has_kind<T: Storable>() -> bool {
    kind_of(type_id::<T>()) == T::kind()
}

/// Calls `TypeId::of`. Claimed: it returns the same identifier for `T` on every call, and no type
/// of another kind has that identifier. The first holds of storable types, of which no two differ
/// in lifetimes alone; the second because an identifier is unique to its type.
#[verifier::external_body]
pub(crate) fn type_key<T: Storable>() -> (id: TypeId)
    ensures
        id == type_id::<T>(),
        kind_of(id) == T::kind(),
{
    TypeId::of::<T>()
}

/// Calls `==` on two type identifiers. Claimed: it tells whether they are the same.
#[verifier::external_body]
pub(crate) fn same_type(a: &TypeId, b: &TypeId) -> (same: bool)
    ensures
        same == (*a == *b),
{
    a == b
}

/// Calls `BTreeSet::pop_first`. Claimed: it removes the least element and returns it, or
/// returns `None` if there is none.
#[verifier::external_body]
pub(crate) fn pop_first(set: &mut BTreeSet<usize>) -> (first: Option<usize>)
    ensures
        match first {
            Some(least) => {
                &&& old(set)@.contains(least)
                &&& forall|i: usize| #[trigger] old(set)@.contains(i) ==> least <= i
                &&& final(set)@ == old(set)@.remove(least)
            },
            None => old(set)@ == Set::<usize>::empty() && final(set)@ == old(set)@,
        },
{
    set.pop_first()
}

/// Calls `Vec::shrink_to_fit` on a vector and hands the vector back. Claimed: it leaves the
/// elements as they are. How much memory it gives back rests on the allocator.
#[verifier::external_body]
pub(crate) fn shrunk<V>(vec: Vec<V>) -> (shrunk: Vec<V>)
    ensures
        shrunk@ == vec@,
{
    let mut vec = vec;
    vec.shrink_to_fit();
    vec
}

/// Calls `Vec::capacity`. Claimed: there is room for the elements that are there. How much more
/// room there is rests on the allocator.
#[verifier::external_body]
pub(crate) fn allocated<V>(vec: &Vec<V>) -> (capacity: usize)
    ensures
        capacity >= vec@.len(),
{
    vec.capacity()
}

/// `std::time::SystemTime`, an opaque point in time.
#[verifier::external_type_specification]
#[verifier::external_body]
pub struct ExSystemTime(SystemTime);

/// `std::time::SystemTimeError`, the error of a time that lies before the one it is measured
/// from.
#[verifier::external_type_specification]
#[verifier::external_body]
pub struct ExSystemTimeError(SystemTimeError);

/// `SystemTime::now`. Nothing is claimed: the clock may show any time.
pub assume_specification[ SystemTime::now ]() -> (now: SystemTime);

/// Calls `SystemTime::duration_since` with the Unix epoch. Nothing is claimed of the result,
/// which rests on the clock.
#[verifier::external_body]
pub(crate) fn since_epoch(time: &SystemTime) -> (elapsed: Result<Duration, SystemTimeError>) {
    time.duration_since(UNIX_EPOCH)
}

/// Calls `Duration::hash` on a hasher and hands the hasher back. Claimed: it only writes to the
/// hasher. Which bytes it writes is left unsaid: the documentation does not tell, and they are not
/// the same on every machine.
#[verifier::external_body]
pub(crate) fn fed(elapsed: &Duration, hasher: DefaultHasher) -> (fed: DefaultHasher)
    ensures
        hasher@.is_prefix_of(fed@),
{
    let mut hasher = hasher;
    elapsed.hash(&mut hasher);
    hasher
}

} // verus!
