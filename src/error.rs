//! Errors of the pair iterators.
use vstd::prelude::*;

verus! {

/// A misuse of the pair iterators, reported to the caller at once.
#[derive(Debug, Clone, Copy, PartialEq, Eq, Structural)]
pub enum IterError {
    /// The backing slice holds fewer than two elements.
    InvalidLength,
    /// A position is out of range, or the two positions given are equal.
    InvalidIndex,
}

} // verus!
