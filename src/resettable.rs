//! Forward iteration over a finite sequence of items, and iteration that can
//! be rewound to its start.
use vstd::prelude::*;

verus! {

/// A forward iteration over a finite sequence of items.
///
/// Its model is the sequence that a traversal from the start yields, and how
/// many of those items have been yielded so far.
pub trait SeqIterator {
    type Item;

    /// The items that a traversal from the start yields, in order.
    spec fn items(&self) -> Seq<Self::Item>;

    /// How many items have been yielded since the start.
    spec fn position(&self) -> nat;

    /// The state is one that the iteration can go on from.
    spec fn wf(&self) -> bool;

    /// Yields the next item, or `None` once every item has been yielded.
    fn next(&mut self) -> (r: Option<Self::Item>)
        requires
            old(self).wf(),
        ensures
            final(self).wf(),
            final(self).items() == old(self).items(),
            old(self).position() < old(self).items().len() ==> r == Some(
                old(self).items()[old(self).position() as int],
            ) && final(self).position() == old(self).position() + 1,
            old(self).position() >= old(self).items().len() ==> r is None
                && final(self).position() == old(self).position(),
    ;
}

/// An iteration that `reset` brings back to its start.
pub trait ResettableIterator: SeqIterator + Sized {
    /// Returns to the start: the items are the same, none has been yielded.
    fn reset(&mut self)
        requires
            old(self).wf(),
        ensures
            final(self).wf(),
            final(self).items() == old(self).items(),
            final(self).position() == 0,
    ;

    /// Duplicates the iteration and rewinds the duplicate, leaving `self` as it is.
    fn reset_clone(&self) -> (r: Self) where Self: Clone
        requires
            self.wf(),
            forall|c: Self|
                call_ensures(Self::clone, (self,), c) ==> c.wf() && c.items() == self.items(),
        ensures
            r.wf(),
            r.items() == self.items(),
            r.position() == 0,
    {
        let mut new = self.clone();
        new.reset();
        new
    }

    /// Applies `callback` to each item, keeping the ability to rewind.
    fn resettable_map<F, R>(self, callback: F) -> (r: ResettableMap<Self, F>) where
        F: Fn(Self::Item) -> R,

        ensures
            r.base() == self,
            r.transform() == callback,
    {
        ResettableMap { iterator: self, callback }
    }
}

/// Whether `f` accepts every argument and gives at most one result for each.
pub open spec fn is_single_valued<A, R, F: Fn(A) -> R>(f: F) -> bool {
    &&& forall|a: A| #[trigger] call_requires(f, (a,))
    &&& forall|a: A, r1: R, r2: R|
        #[trigger] call_ensures(f, (a,), r1) && #[trigger] call_ensures(f, (a,), r2) ==> r1 == r2
}

/// The result of `f` on `a`, when `f` gives one.
pub open spec fn result_of<A, R, F: Fn(A) -> R>(f: F, a: A) -> R {
    choose|r: R| call_ensures(f, (a,), r)
}

/// A resettable iteration that yields the items of another, each transformed
/// by a function. Rewinding rewinds the wrapped iteration and nothing else.
pub struct ResettableMap<I, F> {
    iterator: I,
    callback: F,
}

impl<I, F> ResettableMap<I, F> {
    /// The wrapped iteration.
    pub closed spec fn base(&self) -> I {
        self.iterator
    }

    /// The transform applied to each item.
    pub closed spec fn transform(&self) -> F {
        self.callback
    }
}

impl<I, F, R> SeqIterator for ResettableMap<I, F> where I: SeqIterator, F: Fn(I::Item) -> R {
    type Item = R;

    open spec fn items(&self) -> Seq<R> {
        self.base().items().map_values(|a: I::Item| result_of(self.transform(), a))
    }

    open spec fn position(&self) -> nat {
        self.base().position()
    }

    open spec fn wf(&self) -> bool {
        self.base().wf() && is_single_valued(self.transform())
    }

    fn next(&mut self) -> (r: Option<R>) {
        let item = match self.iterator.next() {
            Some(item) => item,
            None => {
                return None;
            },
        };
        let result = (self.callback)(item);
        Some(result)
    }
}

impl<I, F, R> ResettableIterator for ResettableMap<I, F> where
    I: ResettableIterator,
    F: Fn(I::Item) -> R,
 {
    fn reset(&mut self)
        ensures
            final(self).transform() == old(self).transform(),
            final(self).base().items() == old(self).base().items(),
            final(self).base().position() == 0,
    {
        self.iterator.reset();
    }
}

} // verus!
