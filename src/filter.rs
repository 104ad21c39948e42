//! Iteration that leaves out the items found in a blacklist.
use vstd::prelude::*;

use crate::resettable::SeqIterator;
use vstd::std_specs::cmp::PartialEqSpec;

verus! {

/// Whether some entry of `list` equals `x`, by the equality of `T`.
pub open spec fn is_listed<T: PartialEq>(list: Seq<T>, x: T) -> bool {
    exists|k: int| 0 <= k < list.len() && #[trigger] list[k].eq_spec(&x)
}

/// Whether `list` holds an entry equal to `x`; scans `list` from the front.
fn contains<T: PartialEq>(list: &Vec<T>, x: &T) -> (r: bool)
    ensures
        <T as PartialEqSpec>::obeys_eq_spec() ==> r == is_listed(list@, *x),
{
    let mut k: usize = 0;
    while k < list.len()
        invariant
            k <= list@.len(),
            <T as PartialEqSpec>::obeys_eq_spec() ==> forall|m: int| 0 <= m < k ==> !(#[trigger] list@[m].eq_spec(x)),
        decreases list@.len() - k,
    {
        if list[k] == *x {
            return true;
        }
        k = k + 1;
    }
    false
}

/// Yields the items of a wrapped iteration that equal no entry of a blacklist.
#[derive(Clone)]
pub struct Exclude<I: SeqIterator> where I::Item: PartialEq {
    excluded: Vec<I::Item>,
    cur: I,
}

impl<I: SeqIterator> Exclude<I> where I::Item: PartialEq {
    /// The blacklist, in the order of its entries.
    pub closed spec fn excluded(&self) -> Seq<I::Item> {
        self.excluded@
    }

    /// The wrapped iteration.
    pub closed spec fn base(&self) -> I {
        self.cur
    }

    /// Wraps `iterator` with an empty blacklist.
    pub fn new(iterator: I) -> (r: Self)
        ensures
            r.base() == iterator,
            r.excluded() == Seq::<I::Item>::empty(),
    {
        Exclude { cur: iterator, excluded: Vec::new() }
    }

    /// Wraps `iterator` with `blacklist` as it is.
    pub fn with_blacklist(iterator: I, blacklist: Vec<I::Item>) -> (r: Self)
        ensures
            r.base() == iterator,
            r.excluded() == blacklist@,
    {
        Exclude { cur: iterator, excluded: blacklist }
    }

    /// The blacklist.
    pub fn blacklist(&self) -> (r: &Vec<I::Item>)
        ensures
            r@ == self.excluded(),
    {
        &self.excluded
    }

    /// Appends `new` to the blacklist unless an equal entry is there already.
    pub fn exclude(&mut self, new: I::Item)
        ensures
            final(self).base() == old(self).base(),
            <I::Item as PartialEqSpec>::obeys_eq_spec() && is_listed(old(self).excluded(), new) ==> final(self).excluded() == old(self).excluded(),
            <I::Item as PartialEqSpec>::obeys_eq_spec() && !is_listed(old(self).excluded(), new) ==> final(self).excluded() == old(self).excluded().push(new),
            <I::Item as PartialEqSpec>::obeys_eq_spec() && new.eq_spec(&new) ==> is_listed(
                final(self).excluded(),
                new,
            ),
    {
        if !contains(&self.excluded, &new) {
            let ghost before = self.excluded@;
            self.force_exclude(new);
            assert(self.excluded@[before.len() as int] == new);
        }
    }

    /// Appends `new` to the blacklist, even where an equal entry is there already.
    pub fn force_exclude(&mut self, new: I::Item)
        ensures
            final(self).base() == old(self).base(),
            final(self).excluded() == old(self).excluded().push(new),
    {
        self.excluded.push(new);
    }

    /// Yields the next item of the wrapped iteration that equals no entry of
    /// the blacklist, skipping those that do; `None` once the wrapped
    /// iteration has no item left.
    pub fn next(&mut self) -> (r: Option<I::Item>)
        requires
            old(self).base().wf(),
        ensures
            final(self).base().wf(),
            final(self).excluded() == old(self).excluded(),
            final(self).base().items() == old(self).base().items(),
            old(self).base().position() <= final(self).base().position(),
            r is None ==> final(self).base().position() >= final(self).base().items().len(),
            r matches Some(x) ==> {
                let p = final(self).base().position();
                &&& old(self).base().position() < p <= final(self).base().items().len()
                &&& x == final(self).base().items()[p - 1]
            },
            <I::Item as PartialEqSpec>::obeys_eq_spec() ==> skipped_to(
                old(self).excluded(),
                old(self).base().items(),
                old(self).base().position(),
                final(self).base().position(),
                r,
            ),
    {
        loop
            invariant
                self.base().wf(),
                self.excluded() == old(self).excluded(),
                self.base().items() == old(self).base().items(),
                old(self).base().position() <= self.base().position(),
                self.base().position() == old(self).base().position() || self.base().position()
                    <= self.base().items().len(),
                <I::Item as PartialEqSpec>::obeys_eq_spec() ==> all_listed(
                    old(self).excluded(),
                    old(self).base().items(),
                    old(self).base().position(),
                    self.base().position(),
                ),
            decreases self.base().items().len() + 1 - self.base().position(),
        {
            match self.cur.next() {
                None => {
                    return None;
                },
                Some(i) => {
                    if !contains(&self.excluded, &i) {
                        return Some(i);
                    }
                },
            }
        }
    }
}

/// Whether every item of `items` from rank `from` up to rank `to` is listed.
pub open spec fn all_listed<T: PartialEq>(list: Seq<T>, items: Seq<T>, from: nat, to: nat) -> bool {
    forall|k: int| from <= k < to ==> is_listed(list, #[trigger] items[k])
}

/// Whether a step of the filter from rank `from` to rank `to` of `items`
/// yielded `r`: the items passed over are listed, and `r` is the first item
/// that is not, or `None` when the items ran out first.
pub open spec fn skipped_to<T: PartialEq>(
    list: Seq<T>,
    items: Seq<T>,
    from: nat,
    to: nat,
    r: Option<T>,
) -> bool {
    match r {
        Some(x) => {
            &&& from < to <= items.len()
            &&& all_listed(list, items, from, (to - 1) as nat)
            &&& x == items[to - 1]
            &&& !is_listed(list, x)
        },
        None => {
            &&& to == (if from >= items.len() { from } else { items.len() })
            &&& all_listed(list, items, from, to)
        },
    }
}

/// Excluding a value twice appends it once: after `exclude(v)` an entry
/// equal to `v` is listed, so a second `exclude(v)` leaves the blacklist as it
/// is. This holds where `==` is the equality that `T` states and `v == v`.
pub proof fn lemma_exclude_twice<T: PartialEq>(list: Seq<T>, v: T)
    requires
        <T as PartialEqSpec>::obeys_eq_spec(),
        v.eq_spec(&v),
    ensures
        ({
            let once = if is_listed(list, v) { list } else { list.push(v) };
            &&& is_listed(once, v)
            &&& (if is_listed(once, v) { once } else { once.push(v) }) == once
        }),
{
    if !is_listed(list, v) {
        let once = list.push(v);
        assert(once[list.len() as int] == v);
    }
}

} // verus!
