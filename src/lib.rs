//! Iteration primitives: resettable iteration, blacklist filtering, and the
//! traversal of all ordered pairs of distinct positions of a mutable slice.
pub mod basic;
pub mod child;
pub mod error;
pub mod filter;
pub mod pairs;
pub mod resettable;
pub mod share;

pub use basic::{Count, VecIter};
pub use child::ChildIterator;
pub use error::IterError;
pub use filter::Exclude;
pub use resettable::{ResettableIterator, ResettableMap, SeqIterator};
pub use share::{DoubleIterator, SingleLineIterator};

