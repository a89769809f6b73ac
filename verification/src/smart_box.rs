//! A box that hands out what it holds when dereferenced.

use vstd::prelude::*;

verus! {

/// Holds one value.
pub struct MyBox<T>(pub T);

impl<T> core::ops::Deref for MyBox<T> {
    type Target = T;

    /// A reference to the value held.
    fn deref(&self) -> (r: &T)
        ensures
            *r == self.0,
    {
        &self.0
    }
}

} // verus!
