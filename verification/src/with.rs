//! Building a value from another with one more item.

use vstd::prelude::*;

verus! {

/// A value that, given an item, turns into another value.
pub trait With<T> {
    /// What the value turns into.
    type Output;

    /// The value that `self` turns into, given `item`.
    fn with(self, item: T) -> Self::Output;
}

} // verus!
