//! The types whose values can be components.

use std::any::TypeId;
use std::collections::{BTreeMap, BTreeSet, HashMap, HashSet, VecDeque};
use std::sync::Arc;
use std::time::{Duration, SystemTime};

use vstd::prelude::*;

use crate::trusted::{has_kind, same_type, type_id, type_key};

verus! {

/// A type whose values can be components.
///
/// To implement it is to promise that no other storable type differs from this one in nothing but
/// lifetimes, as `Box<dyn for<'a> Visit<'a>>` and `Box<dyn Visit<'static>>` do: the contracts of a
/// storage tell types apart, not lifetimes. The verifier refuses two such implementations as
/// conflicting; the compiler warns of them. A generic type keeps the promise by asking its
/// parameters to be storable.
///
/// [`crate::Empty`] marks memory that holds no component, so it is not storable.
pub trait Storable: Send + Sync + 'static {
    /// What tells the type from others in proofs. Types of different kinds are different types;
    /// types of one kind may be different too.
    open spec fn kind() -> Kind {
        Kind::Own(0)
    }
}

/// What a storable type is, as far as proofs tell it.
pub enum Kind {
    /// A type for which nothing else is said. Its number tells it from other such types.
    Own(int),
    Unit,
    Bool,
    Char,
    /// An unsigned integer of so many bits.
    Unsigned(nat),
    UnsignedSize,
    /// A signed integer of so many bits.
    Signed(nat),
    SignedSize,
    Text,
    Str,
    Time,
    Clock,
    Identifier,
    Optional(Box<Kind>),
    Outcome(Box<Kind>, Box<Kind>),
    List(Box<Kind>),
    Deque(Box<Kind>),
    Boxed(Box<Kind>),
    Shared(Box<Kind>),
    Borrowed(Box<Kind>),
    HashedMap(Box<Kind>, Box<Kind>),
    HashedSet(Box<Kind>),
    OrderedMap(Box<Kind>, Box<Kind>),
    OrderedSet(Box<Kind>),
    Pair(Box<Kind>, Box<Kind>),
    Triple(Box<Kind>, Box<Kind>, Box<Kind>),
    Quadruple(Box<Kind>, Box<Kind>, Box<Kind>, Box<Kind>),
    /// An array of so many elements.
    Array(nat, Box<Kind>),
}

impl Storable for () {
    open spec fn kind() -> Kind {
        Kind::Unit
    }
}

impl Storable for bool {
    open spec fn kind() -> Kind {
        Kind::Bool
    }
}

impl Storable for char {
    open spec fn kind() -> Kind {
        Kind::Char
    }
}

impl Storable for u8 {
    open spec fn kind() -> Kind {
        Kind::Unsigned(8)
    }
}

impl Storable for u16 {
    open spec fn kind() -> Kind {
        Kind::Unsigned(16)
    }
}

impl Storable for u32 {
    open spec fn kind() -> Kind {
        Kind::Unsigned(32)
    }
}

impl Storable for u64 {
    open spec fn kind() -> Kind {
        Kind::Unsigned(64)
    }
}

impl Storable for u128 {
    open spec fn kind() -> Kind {
        Kind::Unsigned(128)
    }
}

impl Storable for usize {
    open spec fn kind() -> Kind {
        Kind::UnsignedSize
    }
}

impl Storable for i8 {
    open spec fn kind() -> Kind {
        Kind::Signed(8)
    }
}

impl Storable for i16 {
    open spec fn kind() -> Kind {
        Kind::Signed(16)
    }
}

impl Storable for i32 {
    open spec fn kind() -> Kind {
        Kind::Signed(32)
    }
}

impl Storable for i64 {
    open spec fn kind() -> Kind {
        Kind::Signed(64)
    }
}

impl Storable for i128 {
    open spec fn kind() -> Kind {
        Kind::Signed(128)
    }
}

impl Storable for isize {
    open spec fn kind() -> Kind {
        Kind::SignedSize
    }
}

impl Storable for String {
    open spec fn kind() -> Kind {
        Kind::Text
    }
}

impl Storable for &'static str {
    open spec fn kind() -> Kind {
        Kind::Str
    }
}

impl Storable for Duration {
    open spec fn kind() -> Kind {
        Kind::Time
    }
}

impl Storable for SystemTime {
    open spec fn kind() -> Kind {
        Kind::Clock
    }
}

impl Storable for TypeId {
    open spec fn kind() -> Kind {
        Kind::Identifier
    }
}

impl<T: Storable> Storable for Option<T> {
    open spec fn kind() -> Kind {
        Kind::Optional(Box::new(T::kind()))
    }
}

impl<T: Storable, E: Storable> Storable for Result<T, E> {
    open spec fn kind() -> Kind {
        Kind::Outcome(Box::new(T::kind()), Box::new(E::kind()))
    }
}

impl<T: Storable> Storable for Vec<T> {
    open spec fn kind() -> Kind {
        Kind::List(Box::new(T::kind()))
    }
}

impl<T: Storable> Storable for VecDeque<T> {
    open spec fn kind() -> Kind {
        Kind::Deque(Box::new(T::kind()))
    }
}

impl<T: Storable> Storable for Box<T> {
    open spec fn kind() -> Kind {
        Kind::Boxed(Box::new(T::kind()))
    }
}

impl<T: Storable> Storable for Arc<T> {
    open spec fn kind() -> Kind {
        Kind::Shared(Box::new(T::kind()))
    }
}

impl<T: Storable> Storable for &'static T {
    open spec fn kind() -> Kind {
        Kind::Borrowed(Box::new(T::kind()))
    }
}

impl<K: Storable, V: Storable> Storable for HashMap<K, V> {
    open spec fn kind() -> Kind {
        Kind::HashedMap(Box::new(K::kind()), Box::new(V::kind()))
    }
}

impl<K: Storable> Storable for HashSet<K> {
    open spec fn kind() -> Kind {
        Kind::HashedSet(Box::new(K::kind()))
    }
}

impl<K: Storable, V: Storable> Storable for BTreeMap<K, V> {
    open spec fn kind() -> Kind {
        Kind::OrderedMap(Box::new(K::kind()), Box::new(V::kind()))
    }
}

impl<K: Storable> Storable for BTreeSet<K> {
    open spec fn kind() -> Kind {
        Kind::OrderedSet(Box::new(K::kind()))
    }
}

impl<A: Storable, B: Storable> Storable for (A, B) {
    open spec fn kind() -> Kind {
        Kind::Pair(Box::new(A::kind()), Box::new(B::kind()))
    }
}

impl<A: Storable, B: Storable, C: Storable> Storable for (A, B, C) {
    open spec fn kind() -> Kind {
        Kind::Triple(Box::new(A::kind()), Box::new(B::kind()), Box::new(C::kind()))
    }
}

impl<A: Storable, B: Storable, C: Storable, D: Storable> Storable for (A, B, C, D) {
    open spec fn kind() -> Kind {
        Kind::Quadruple(
            Box::new(A::kind()),
            Box::new(B::kind()),
            Box::new(C::kind()),
            Box::new(D::kind()),
        )
    }
}

impl<T: Storable, const N: usize> Storable for [T; N] {
    open spec fn kind() -> Kind {
        Kind::Array(N as nat, Box::new(T::kind()))
    }
}

/// Tells whether two types are the same to a storage.
pub fn same_type_as<T: Storable, U: Storable>() -> (same: bool)
    ensures
        same == (type_id::<T>() == type_id::<U>()),
        has_kind::<T>(),
        has_kind::<U>(),
{
    same_type(&type_key::<T>(), &type_key::<U>())
}

} // verus!
