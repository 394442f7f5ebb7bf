//! Pointer wrappers: shared and exclusive references that stand for an
//! object the engine owns.

use vstd::prelude::*;

verus! {

/// A shared reference to an object.
#[derive(Clone, Copy, Debug)]
pub struct Ptr<'a, T> {
    value: &'a T,
}

impl<'a, T> Ptr<'a, T> {
    /// The pointer to `value`.
    pub fn new(value: &'a T) -> (r: Ptr<'a, T>)
        ensures
            *r.spec_get() == *value,
    {
        Ptr { value }
    }

    /// The object pointed to.
    pub closed spec fn spec_get(&self) -> &'a T {
        self.value
    }

    /// The object pointed to.
    pub fn get(&self) -> (r: &'a T)
        ensures
            *r == *self.spec_get(),
    {
        self.value
    }
}

/// An exclusive reference to an object.
#[derive(Debug)]
pub struct PtrMut<'a, T> {
    value: &'a mut T,
}

impl<'a, T> PtrMut<'a, T> {
    /// The pointer to `value`.
    pub fn new(value: &'a mut T) -> (r: PtrMut<'a, T>)
        ensures
            r.spec_get() == *old(value),
    {
        PtrMut { value }
    }

    /// The object pointed to.
    pub closed spec fn spec_get(&self) -> T {
        *self.value
    }

    /// The object pointed to.
    pub fn get(&self) -> (r: &T)
        ensures
            *r == self.spec_get(),
    {
        self.value
    }

    /// The object pointed to, to change it in place.
    pub fn get_mut(&mut self) -> (r: &mut T)
        ensures
            *r == old(self).spec_get(),
            final(self).spec_get() == *final(r),
    {
        &mut *self.value
    }
}

} // verus!
