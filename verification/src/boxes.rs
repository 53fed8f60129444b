//! A minimal owning box, built to show how indirection wraps a value.

use vstd::prelude::*;

verus! {

/// An owning wrapper around a single value.
pub struct MyBox<T>(pub T);

impl<T> MyBox<T> {
    /// Wraps the value; nothing about it changes.
    pub fn new(x: T) -> (r: MyBox<T>)
        ensures
            r.0 == x,
    {
        MyBox(x)
    }

    /// A borrow of the wrapped value.
    pub fn inner(&self) -> (r: &T)
        ensures
            *r == self.0,
    {
        &self.0
    }
}

} // verus!
