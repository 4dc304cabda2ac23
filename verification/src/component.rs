//! Components of any type, and the slots that hold them.

use std::any::{Any, TypeId};

use vstd::prelude::*;

use crate::storable::Storable;
use crate::trusted::type_id;

verus! {

/// A component of any storable type, on the heap: a `Box<dyn Any + Send + Sync>`. Only the four
/// functions below that call `std` look inside.
#[verifier::external_body]
pub struct Component {
    value: Box<dyn Any + Send + Sync>,
}

/// The type of the value in a component, as `<dyn Any>::is` tests it.
pub uninterp spec fn held_type(component: Component) -> TypeId;

impl Component {
    /// `downcast_ref::<T>` finds `value` in the component, and nothing else.
    pub closed spec fn holds<T: Storable>(self, value: T) -> bool {
        forall|found: Option<&T>| #[trigger]
            call_ensures(Component::downcast_ref::<T>, (&self,), found) <==> found == Some(&value)
    }

    /// The value that `downcast_ref::<T>` finds in a component of type `T`.
    pub closed spec fn value<T: Storable>(self) -> T {
        choose|value: T| self.holds(value)
    }

    /// Calls `Box::new` and forgets the type of the box. Claimed: the component is one of type
    /// `T`, and its value is read back as it was given.
    #[verifier::external_body]
    pub(crate) fn new<T: Storable>(value: T) -> (component: Component)
        ensures
            held_type(component) == type_id::<T>(),
            component.holds(value),
    {
        Component { value: Box::new(value) }
    }

    /// Calls `<dyn Any>::is`. Claimed: it tells whether the component is one of type `T`, and
    /// such a component holds one value for `downcast_ref::<T>` to find.
    #[verifier::external_body]
    fn is<T: Storable>(&self) -> (is: bool)
        ensures
            is == (held_type(*self) == type_id::<T>()),
            is ==> exists|value: T| #[trigger] self.holds(value),
    {
        self.value.is::<T>()
    }

    /// Calls `<dyn Any>::downcast_ref`. Claimed: it finds a value just where the component is
    /// one of type `T`. Which value is what [`Component::holds`] speaks of.
    #[verifier::external_body]
    fn downcast_ref<T: Storable>(&self) -> (found: Option<&T>)
        ensures
            found is Some <==> held_type(*self) == type_id::<T>(),
    {
        self.value.downcast_ref::<T>()
    }

    /// Calls `<dyn Any>::downcast_mut`. Claimed: it finds a value just where the component is
    /// one of type `T`; the value is the one that the component holds, and what is written
    /// through the reference is what the component holds afterwards.
    #[verifier::external_body]
    pub(crate) fn downcast_mut<T: Storable>(&mut self) -> (found: Option<&mut T>)
        ensures
            found is Some <==> held_type(*old(self)) == type_id::<T>(),
            found matches Some(value) ==> {
                &&& old(self).holds(*value)
                &&& final(self).holds(*final(value))
                &&& held_type(*final(self)) == held_type(*old(self))
            },
            found is None ==> *final(self) == *old(self),
    {
        self.value.downcast_mut::<T>()
    }
}

impl Component {
    /// The value of a component of type `T`.
    pub(crate) fn get<T: Storable>(&self) -> (value: Option<&T>)
        ensures
            match value {
                Some(v) => held_type(*self) == type_id::<T>() && *v == self.value::<T>(),
                None => held_type(*self) != type_id::<T>(),
            },
    {
        if self.is::<T>() {
            proof {
                lemma_holds(*self, choose|value: T| self.holds(value));
            }
            self.downcast_ref::<T>()
        } else {
            None
        }
    }
}

/// A component has one value.
pub proof fn lemma_holds<T: Storable>(component: Component, value: T)
    requires
        component.holds(value),
    ensures
        component.value::<T>() == value,
{
    let read = component.value::<T>();
    assert(component.holds(read));
    assert(call_ensures(Component::downcast_ref::<T>, (&component,), Some(&read)));
}

/// An empty type for marking free component memory.
pub enum Empty {
    Empty,
}

/// A slot of component memory: marked as free, or in use by a component.
pub enum Slot {
    Free(Empty),
    Used(Component),
}

impl Slot {
    /// The slot is in use by a component of the given type.
    pub open spec fn is_of(self, key: TypeId) -> bool {
        self matches Slot::Used(component) && held_type(component) == key
    }

    /// What the slot holds, read as a component of type `T`.
    pub open spec fn value<T: Storable>(self) -> Option<T> {
        match self {
            Slot::Free(_) => None,
            Slot::Used(component) => Some(component.value::<T>()),
        }
    }
}

/// What a storage keeps for one type: its slots, and the slot that each id owns.
#[verifier::ext_equal]
pub struct Contents {
    pub slots: Seq<Slot>,
    pub owners: Map<u64, int>,
}

/// What the slots hold, read as components of type `T`.
pub open spec fn values_of<T: Storable>(slots: Seq<Slot>) -> Seq<Option<T>> {
    slots.map_values(|slot: Slot| slot.value::<T>())
}

} // verus!
