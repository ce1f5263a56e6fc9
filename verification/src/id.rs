//! Typed identifiers: a value tagged with the kind of thing it identifies.

use std::marker::PhantomData;

use vstd::prelude::*;

verus! {

#[derive(Copy, PartialEq, Eq, PartialOrd, Ord, Hash)]
pub struct Id<Marker, Val = usize> {
    inner: Val,
    _phantom: PhantomData<Marker>,
}

impl<M, V> Id<M, V> {
    /// The value that the identifier holds.
    pub closed spec fn value(self) -> V {
        self.inner
    }

    #[inline]
    pub fn new(inner: V) -> (r: Self)
        ensures
            r.value() == inner,
    {
        Self { inner, _phantom: PhantomData }
    }
}

impl<M, V: Clone> Clone for Id<M, V> {
    fn clone(&self) -> (r: Self) {
        Id { inner: self.inner.clone(), _phantom: PhantomData }
    }
}

impl<M, V: Copy> Id<M, V> {
    #[inline]
    pub fn get(self) -> (r: V)
        ensures
            r == self.value(),
    {
        self.inner
    }
}

} // verus!
