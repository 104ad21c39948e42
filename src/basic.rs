//! Two plain resettable iterations: a counter over a range of integers, and
//! a cursor over the elements of a vector.
use vstd::prelude::*;

use crate::resettable::{ResettableIterator, SeqIterator};

verus! {

/// Counts from `begin` up to, but not including, `end`; `cur` is the next
/// value to yield.
#[derive(Clone, Copy, Debug)]
pub struct Count {
    pub begin: u32,
    pub cur: u32,
    pub end: u32,
}

impl SeqIterator for Count {
    type Item = u32;

    open spec fn items(&self) -> Seq<u32> {
        Seq::new((self.end - self.begin) as nat, |k: int| (self.begin + k) as u32)
    }

    open spec fn position(&self) -> nat {
        (self.cur - self.begin) as nat
    }

    open spec fn wf(&self) -> bool {
        self.begin <= self.cur <= self.end
    }

    fn next(&mut self) -> (r: Option<u32>) {
        if self.cur == self.end {
            None
        } else {
            self.cur = self.cur + 1;
            Some(self.cur - 1)
        }
    }
}

impl ResettableIterator for Count {
    fn reset(&mut self) {
        self.cur = self.begin;
    }
}

/// Yields the elements of a vector in order.
#[derive(Clone, Debug)]
pub struct VecIter<T> {
    elements: Vec<T>,
    pos: usize,
}

impl<T: Copy> VecIter<T> {
    /// A cursor at the start of `elements`.
    pub fn new(elements: Vec<T>) -> (r: Self)
        ensures
            r.wf(),
            r.items() == elements@,
            r.position() == 0,
    {
        VecIter { elements, pos: 0 }
    }
}

impl<T: Copy> SeqIterator for VecIter<T> {
    type Item = T;

    closed spec fn items(&self) -> Seq<T> {
        self.elements@
    }

    closed spec fn position(&self) -> nat {
        self.pos as nat
    }

    closed spec fn wf(&self) -> bool {
        self.pos <= self.elements@.len()
    }

    fn next(&mut self) -> (r: Option<T>) {
        if self.pos < self.elements.len() {
            let item = self.elements[self.pos];
            self.pos = self.pos + 1;
            Some(item)
        } else {
            None
        }
    }
}

impl<T: Copy> ResettableIterator for VecIter<T> {
    fn reset(&mut self) {
        self.pos = 0;
    }
}

} // verus!
