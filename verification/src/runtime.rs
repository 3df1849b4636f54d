//! Support types shared by all emitted bindings.
//!
//! A binding owns its connection handle or borrows one from the caller;
//! [`MaybeOwned`] is that two-variant holder.  The marker traits record
//! what an object declaration promised: a constant destination, a
//! constant path, and whether the object is commonly found on the
//! session or the system bus — the gates behind the standard
//! constructors.  [`DictValue`] pairs one value with a dictionary key
//! when a struct is marshaled as a string-keyed dictionary; the
//! marshaling itself belongs to the host runtime.

use vstd::prelude::*;

verus! {

/// An exclusively owned value, or a non-owning reference to one that
/// the caller manages.
pub enum MaybeOwned<'a, T> {
    Owned(T),
    Borrowed(&'a T),
}

impl<'a, T> MaybeOwned<'a, T> {
    /// The held value, whoever owns it.
    pub open spec fn value(self) -> T {
        match self {
            MaybeOwned::Owned(t) => t,
            MaybeOwned::Borrowed(t) => *t,
        }
    }

    /// Borrow the held value.
    pub fn as_ref(&self) -> (r: &T)
        ensures
            *r == self.value(),
    {
        match self {
            MaybeOwned::Owned(t) => t,
            MaybeOwned::Borrowed(t) => t,
        }
    }

    /// Hold `value` by ownership.
    pub fn owned(value: T) -> (r: MaybeOwned<'a, T>)
        ensures
            r == MaybeOwned::Owned(value),
    {
        MaybeOwned::Owned(value)
    }

    /// Hold `value` by reference; the caller keeps ownership.
    pub fn borrowed(value: &'a T) -> (r: MaybeOwned<'a, T>)
        ensures
            r == MaybeOwned::Borrowed(value),
    {
        MaybeOwned::Borrowed(value)
    }
}

/// Implemented by a binding whose declaration named a destination.
pub trait CommonDestination {
    /// The declared bus destination.
    fn common_destination() -> Vec<u8>;
}

/// Implemented by a binding whose declaration named an object path.
pub trait CommonPath {
    /// The declared object path.
    fn common_path() -> Vec<u8>;
}

/// Implemented by a binding whose declaration carries the `session`
/// marker: the object is commonly reached over the session bus.
pub trait CommonlySession {

}

/// Implemented by a binding whose declaration carries the `system`
/// marker: the object is commonly reached over the system bus.
pub trait CommonlySystem {

}

/// One value paired with the dictionary key it is appended under when a
/// struct is marshaled as a string-keyed dictionary of variants.
pub struct DictValue<T>(pub T);

impl<T> DictValue<T> {
    /// Wrap a value for dictionary appending.
    pub fn new(value: T) -> (r: DictValue<T>)
        ensures
            r == DictValue(value),
    {
        DictValue(value)
    }
}

} // verus!
