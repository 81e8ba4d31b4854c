//! Append-only storage whose items refer to one another by typed handles.

use std::marker::PhantomData;
use vstd::prelude::*;

verus! {

/// A typed index into an [`Arena`].
#[derive(Debug)]
pub struct Handle<T> {
    pub index: u32,
    pub marker: PhantomData<T>,
}

impl<T> Clone for Handle<T> {
    fn clone(&self) -> (copy: Self)
        ensures
            copy == *self,
    {
        *self
    }
}

impl<T> Copy for Handle<T> {

}

impl<T> Handle<T> {
    /// The handle of the item at `index`.
    pub fn new(index: u32) -> (handle: Self)
        ensures
            handle.index == index,
    {
        Handle { index, marker: PhantomData }
    }

    /// Whether two handles refer to the same item.
    pub fn same(self, other: Self) -> (equal: bool)
        ensures
            equal == (self == other),
    {
        self.index == other.index
    }
}

/// A growing list of items, each known by the handle that [`Arena::append`] gave out for it.
#[derive(Debug)]
pub struct Arena<T> {
    pub data: Vec<T>,
}

impl<T> Arena<T> {
    /// Whether `handle` refers to an item of this arena.
    pub open spec fn contains(&self, handle: Handle<T>) -> bool {
        handle.index < self.data@.len()
    }

    /// The item that `handle` refers to.
    pub open spec fn at(&self, handle: Handle<T>) -> T {
        self.data@[handle.index as int]
    }

    /// The number of items.
    pub open spec fn count(&self) -> nat {
        self.data@.len()
    }

    pub fn new() -> (arena: Self)
        ensures
            arena.data@ == Seq::<T>::empty(),
    {
        Arena { data: Vec::new() }
    }

    pub fn len(&self) -> (length: usize)
        ensures
            length == self.count(),
    {
        self.data.len()
    }

    /// Adds `value` at the end and returns its handle.
    pub fn append(&mut self, value: T) -> (handle: Handle<T>)
        requires
            old(self).data@.len() < u32::MAX,
        ensures
            final(self).data@ == old(self).data@.push(value),
            handle.index == old(self).data@.len(),
            final(self).contains(handle),
            final(self).at(handle) == value,
    {
        let index: u32 = self.data.len() as u32;
        self.data.push(value);
        Handle::new(index)
    }

    /// The item that `handle` refers to.
    pub fn get(&self, handle: Handle<T>) -> (item: &T)
        requires
            self.contains(handle),
        ensures
            *item == self.at(handle),
    {
        &self.data[handle.index as usize]
    }
}

} // verus!
