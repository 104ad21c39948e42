//! Iterations that run over another iteration, which they give access to.
use vstd::prelude::*;

use crate::resettable::SeqIterator;

verus! {

/// An iteration over another iteration, its parent, which it gives access to.
pub trait ChildIterator: Sized {
    type Parent: SeqIterator;

    /// Gives up `self` and returns its parent.
    fn release_parent(self) -> Self::Parent;

    /// A mutable access to the parent of `self`.
    fn get_parent_mut(&mut self) -> &mut Self::Parent;

    /// A shared access to the parent of `self`.
    fn get_parent(&self) -> &Self::Parent;
}

} // verus!
