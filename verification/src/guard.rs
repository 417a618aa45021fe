//! Resources that are changed transactionally.

use vstd::prelude::*;

verus! {

#[derive(Debug, PartialEq)]
pub enum Error {
    /// Posisoned resource.
    Poisoned,
}

/// Tx represents a resource to be manipulated transactionally.
pub trait Tx<T: Clone> {
    /// The value that the resource holds.
    spec fn content(&self) -> T;

    /// Acquires the resource, which nobody else reaches until the guard is
    /// gone. The guard holds a copy of the content. Unless the guard is
    /// committed, the resource holds in the end what it held before.
    fn begin(&mut self) -> (guard: Result<ResourceGuard<'_, T>, Error>)
        ensures
            match guard {
                Ok(guard) => {
                    &&& *guard.guard == old(self).content()
                    &&& cloned(old(self).content(), guard.data)
                    &&& final(self).content() == *final(guard.guard)
                },
                Err(_) => final(self).content() == old(self).content(),
            },
    ;
}

/// A TxGuard holds a copy of T while keeping locked the original value, ensuring
/// its consistency between transactions.
pub trait TxGuard<T>: core::ops::Deref<Target = T> + core::ops::DerefMut {
    /// The copy that the guard holds.
    spec fn data(&self) -> T;

    /// Returns a reference to the copy.
    fn as_ref(&self) -> (data: &T)
        ensures
            *data == self.data(),
    ;

    /// Returns a mutable reference to the copy. What is written through it
    /// is the copy from then on.
    fn as_mut(&mut self) -> (data: &mut T)
        ensures
            *data == old(self).data(),
            final(self).data() == *final(data),
    ;

    /// Releases the resource right after updating its content with the
    /// manipulated data.
    fn commit(self);
}

/// A value that is changed through guards: each guard works on a copy, and
/// the value changes only when a guard is committed.
pub struct Resource<T> {
    value: T,
}

impl<T> Resource<T> {
    /// The value that the resource holds.
    pub closed spec fn view(&self) -> T {
        self.value
    }

    /// Creates the resource that holds the given value.
    pub fn new(value: T) -> (resource: Self)
        ensures
            resource@ == value,
    {
        Resource { value }
    }

    /// Returns a reference to the value that the resource holds.
    pub fn get(&self) -> (value: &T)
        ensures
            *value == self@,
    {
        &self.value
    }

    /// Returns the value that the resource holds.
    pub fn into_inner(self) -> (value: T)
        ensures
            value == self@,
    {
        self.value
    }
}

impl<T: Clone> Tx<T> for Resource<T> {
    open spec fn content(&self) -> T {
        self@
    }

    /// Acquires the resource. A unique borrow cannot be poisoned, so this
    /// never fails.
    fn begin(&mut self) -> (guard: Result<ResourceGuard<'_, T>, Error>)
        ensures
            guard.is_ok(),
    {
        let data = self.value.clone();
        Ok(ResourceGuard { guard: &mut self.value, data })
    }
}

/// The guard of a [`Resource`]: the resource's value, held by a unique
/// borrow, and the copy that is worked on.
pub struct ResourceGuard<'a, T> {
    pub guard: &'a mut T,
    pub data: T,
}

impl<'a, T> TxGuard<T> for ResourceGuard<'a, T> {
    open spec fn data(&self) -> T {
        self.data
    }

    fn as_ref(&self) -> (data: &T) {
        &self.data
    }

    fn as_mut(&mut self) -> (data: &mut T)
        ensures
            final(self).guard == old(self).guard,
    {
        &mut self.data
    }

    /// Writes the copy into the resource and releases it.
    fn commit(self)
        ensures
            *final(self.guard) == self.data,
    {
        let mut released = self;
        *released.guard = released.data;
    }
}

impl<'a, T> core::ops::Deref for ResourceGuard<'a, T> {
    type Target = T;

    fn deref(&self) -> (data: &T)
        ensures
            *data == self.data,
    {
        &self.data
    }
}

impl<'a, T> core::ops::DerefMut for ResourceGuard<'a, T> {
    fn deref_mut(&mut self) -> (data: &mut T)
        ensures
            *data == old(self).data,
            final(self).data == *final(data),
            final(self).guard == old(self).guard,
    {
        &mut self.data
    }
}

} // verus!
