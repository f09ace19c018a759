//! Correlation identifiers, each tagged with the scope in which it is unique.
//!
//! The scope is a type parameter, so an id of one scope cannot be compared
//! with, stored beside, or passed in place of an id of another scope.

use core::marker::PhantomData;
use vstd::prelude::*;

verus! {

/// Ids the router assigns and keeps unique across the whole router.
#[derive(Clone, Copy, Debug, PartialEq, Eq, Hash)]
pub struct GlobalScope;

/// Ids the router assigns and keeps unique per resource it manages.
#[derive(Clone, Copy, Debug, PartialEq, Eq, Hash)]
pub struct RouterScope;

/// Ids this peer assigns, unique per outstanding request on one connection.
#[derive(Clone, Copy, Debug, PartialEq, Eq, Hash)]
pub struct SessionScope;

/// An unsigned integer tagged with its scope.
#[derive(Debug, PartialEq, Eq, Hash)]
pub struct Id<S> {
    value: u64,
    scope: PhantomData<S>,
}

impl<S> Clone for Id<S> {
    fn clone(&self) -> (copy: Self)
        ensures
            copy@ == self@,
    {
        Id { value: self.value, scope: PhantomData }
    }
}

impl<S> Copy for Id<S> {

}

impl<S> View for Id<S> {
    type V = u64;

    closed spec fn view(&self) -> u64 {
        self.value
    }
}

impl<S> Id<S> {
    /// Tags a number that the wire carried with the scope it belongs to.
    /// Nothing is allocated.
    pub fn from_raw_value(value: u64) -> (id: Self)
        ensures
            id@ == value,
    {
        Id { value, scope: PhantomData }
    }

    /// The number behind the id.
    pub fn value(&self) -> (value: u64)
        ensures
            value == self@,
    {
        self.value
    }
}

/// A monotonic counter that mints the ids of one scope: 1, 2, 3, ...
#[derive(Debug)]
pub struct IdAllocator<S> {
    last: u64,
    scope: PhantomData<S>,
}

impl<S> IdAllocator<S> {
    /// How many ids were minted so far, which is also the last id minted.
    pub closed spec fn issued(&self) -> u64 {
        self.last
    }

    /// Whether another id can be minted without the counter wrapping.
    pub open spec fn has_next(&self) -> bool {
        self.issued() < u64::MAX
    }

    /// A counter that has minted nothing.
    pub fn new() -> (allocator: Self)
        ensures
            allocator.issued() == 0,
    {
        IdAllocator { last: 0, scope: PhantomData }
    }

    /// A counter that goes on after `last`: the next id is one more.
    pub fn resume(last: u64) -> (allocator: Self)
        ensures
            allocator.issued() == last,
    {
        IdAllocator { last, scope: PhantomData }
    }

    /// The last id minted, 0 where there is none.
    pub fn last_issued(&self) -> (last: u64)
        ensures
            last == self.issued(),
    {
        self.last
    }

    /// Mints the next id: one more than the last, so the first is 1 and each
    /// is greater than all before it.
    pub fn next(&mut self) -> (id: Id<S>)
        requires
            old(self).has_next(),
        ensures
            id@ == old(self).issued() + 1,
            final(self).issued() == id@,
    {
        self.last = self.last + 1;
        Id::from_raw_value(self.last)
    }

    /// Mints the next id, or `None` where the counter is exhausted; the
    /// counter is then left as it was.
    pub fn try_next(&mut self) -> (id: Option<Id<S>>)
        ensures
            old(self).has_next() ==> id.is_some() && id.unwrap()@ == old(self).issued() + 1
                && final(self).issued() == old(self).issued() + 1,
            !old(self).has_next() ==> id.is_none() && final(self).issued() == old(self).issued(),
    {
        if self.last < u64::MAX {
            Some(self.next())
        } else {
            None
        }
    }
}

} // verus!
