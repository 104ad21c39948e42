//! Traversal of all ordered pairs of distinct positions of a mutable slice,
//! handing out two non-overlapping mutable accesses per step.
use vstd::prelude::*;

use crate::error::IterError;
use crate::pairs::{
    all_pairs, is_pair, lemma_first_pair, lemma_pair_at_index, lemma_step, pair_at, pair_count, pair_index,
};

verus! {

/// Whether the positions `p` are the pair `q` of the enumeration.
pub open spec fn same_pair(p: (usize, usize), q: (nat, nat)) -> bool {
    p.0 == q.0 && p.1 == q.1
}

/// Splits `slice` into mutable accesses to its elements at two distinct positions.
fn two_mut<T>(slice: &mut [T], i: usize, j: usize) -> (r: (&mut T, &mut T))
    requires
        i < old(slice)@.len(),
        j < old(slice)@.len(),
        i != j,
    ensures
        *r.0 == old(slice)@[i as int],
        *r.1 == old(slice)@[j as int],
        final(slice)@ == old(slice)@.update(i as int, *final(r.0)).update(j as int, *final(r.1)),
{
    if i < j {
        let (low, high) = slice.split_at_mut(j);
        let a = &mut low[i];
        let b = high.first_mut().unwrap();
        (a, b)
    } else {
        let (low, high) = slice.split_at_mut(i);
        let b = &mut low[j];
        let a = high.first_mut().unwrap();
        (a, b)
    }
}

/// Iterates over every ordered pair `(i, j)` of distinct positions of a slice,
/// in lexicographic order with `j` varying fastest.
///
/// The iterator holds the slice under exclusive borrow for its whole life.
/// Its state is the pair that the next step yields, or the exhausted state.
pub struct DoubleIterator<'a, T> {
    slice: &'a mut [T],
    first: usize,
    second: usize,
}

impl<'a, T> DoubleIterator<'a, T> {
    /// The state is a pair of distinct positions, or the exhausted state.
    pub closed spec fn wf(&self) -> bool {
        let n = self.slice@.len();
        &&& n >= 2
        &&& (is_pair(n, self.first as nat, self.second as nat) || (self.first == n
            && self.second == 0))
    }

    /// The backing slice.
    pub closed spec fn items(&self) -> Seq<T> {
        self.slice@
    }

    /// Length of the backing slice.
    pub open spec fn len(&self) -> nat {
        self.items().len()
    }

    /// How many pairs of the enumeration lie before the next one to be
    /// yielded; `pair_count(len)` once exhausted.
    pub closed spec fn position(&self) -> nat {
        if self.first == self.slice@.len() {
            pair_count(self.slice@.len())
        } else {
            pair_index(self.slice@.len(), self.first as nat, self.second as nat)
        }
    }

    /// Whether every pair has been yielded since the last `reset` or `set`.
    pub open spec fn is_exhausted(&self) -> bool {
        self.position() >= pair_count(self.len())
    }

    /// A well-formed iterator runs over at least two elements, and its
    /// position never passes the number of pairs.
    pub proof fn lemma_wf(&self)
        requires
            self.wf(),
        ensures
            self.len() >= 2,
            self.position() <= pair_count(self.len()),
    {
        self.lemma_position();
    }

    proof fn lemma_position(&self)
        requires
            self.wf(),
        ensures
            self.len() >= 2,
            self.position() <= pair_count(self.len()),
            self.position() < pair_count(self.len()) ==> self.first < self.len() && pair_at(
                self.len(),
                self.position(),
            ) == (self.first as nat, self.second as nat),
            self.position() == pair_count(self.len()) ==> self.first == self.len(),
    {
        if self.first < self.slice@.len() {
            lemma_pair_at_index(self.slice@.len(), self.first as nat, self.second as nat);
        }
    }

    /// Creates an iterator over `slice` whose first step yields `(0, 1)`.
    pub fn new(slice: &'a mut [T]) -> (r: Result<Self, IterError>)
        ensures
            old(slice)@.len() < 2 <==> r is Err,
            r matches Err(e) ==> e == IterError::InvalidLength,
            r is Err ==> final(slice)@ == old(slice)@,
            r matches Ok(it) ==> it.wf() && it.items() == old(slice)@ && it.position() == 0,
    {
        if slice.len() < 2 {
            return Err(IterError::InvalidLength);
        }
        let it = DoubleIterator { slice, first: 0, second: 1 };
        assert(pair_index(it.slice@.len(), 0, 1) == 0);
        Ok(it)
    }

    /// Moves the state to the pair after the current one, or to the exhausted state.
    fn increment(&mut self)
        requires
            old(self).wf(),
            old(self).first < old(self).len(),
        ensures
            final(self).wf(),
            final(self).items() == old(self).items(),
            final(self).position() == old(self).position() + 1,
    {
        proof {
            lemma_step(self.slice@.len(), self.first as nat, self.second as nat);
        }
        let n = self.slice.len();
        let mut s = self.second + 1;
        if s == self.first {
            s = s + 1;
        }
        if s >= n {
            self.second = 0;
            self.first = self.first + 1;
        } else {
            self.second = s;
        }
    }

    /// Yields the positions of the next pair, the one at `position` in
    /// `all_pairs(len)`, or `None` once every pair has been yielded; the
    /// exhausted state lasts until `reset` or `set`.
    pub fn next(&mut self) -> (r: Option<(usize, usize)>)
        requires
            old(self).wf(),
        ensures
            final(self).wf(),
            final(self).items() == old(self).items(),
            old(self).is_exhausted() ==> r is None && final(self).position() == old(self).position()
                && final(self).is_exhausted(),
            !old(self).is_exhausted() ==> r is Some && same_pair(
                r->0,
                all_pairs(old(self).len())[old(self).position() as int],
            ) && final(self).position() == old(self).position() + 1,
    {
        proof {
            self.lemma_position();
        }
        if self.first == self.slice.len() {
            return None;
        }
        let pair = (self.first, self.second);
        self.increment();
        Some(pair)
    }

    /// Yields mutable accesses to the two elements of the next pair, or
    /// `None` once every pair has been yielded. The two accesses never
    /// overlap, and they end before the iterator is used again.
    pub fn next_mut(&mut self) -> (r: Option<(&mut T, &mut T)>)
        requires
            old(self).wf(),
        ensures
            final(self).wf(),
            old(self).is_exhausted() ==> r is None && final(self).position() == old(self).position()
                && final(self).items() == old(self).items(),
            !old(self).is_exhausted() ==> r is Some && final(self).position() == old(self).position()
                + 1 && ({
                let (i, j) = pair_at(old(self).len(), old(self).position());
                let (a, b) = r->0;
                &&& *a == old(self).items()[i as int]
                &&& *b == old(self).items()[j as int]
                &&& final(self).items() == old(self).items().update(i as int, *final(a)).update(
                    j as int,
                    *final(b),
                )
            }),
    {
        proof {
            self.lemma_position();
        }
        if self.first == self.slice.len() {
            return None;
        }
        let i = self.first;
        let j = self.second;
        self.increment();
        Some(two_mut(self.slice, i, j))
    }

    /// Returns to the state before the first pair: the next step yields `(0, 1)`.
    pub fn reset(&mut self)
        requires
            old(self).wf(),
        ensures
            final(self).wf(),
            final(self).items() == old(self).items(),
            final(self).position() == 0,
            !final(self).is_exhausted(),
            pair_at(final(self).len(), final(self).position()) == (0nat, 1nat),
    {
        proof {
            lemma_first_pair(self.slice@.len());
        }
        self.first = 0;
        self.second = 1;
        assert(pair_index(self.slice@.len(), 0, 1) == 0);
    }

    /// Moves to the pair `(i, j)`, which the next step then yields; the
    /// enumeration goes on from there. Fails, with the state unchanged, when
    /// `i == j` or either position is out of range.
    pub fn set(&mut self, i: usize, j: usize) -> (r: Result<(), IterError>)
        requires
            old(self).wf(),
        ensures
            final(self).wf(),
            final(self).items() == old(self).items(),
            r is Err <==> !is_pair(old(self).len(), i as nat, j as nat),
            r matches Err(e) ==> e == IterError::InvalidIndex && final(self).position()
                == old(self).position(),
            r is Ok ==> final(self).position() == pair_index(old(self).len(), i as nat, j as nat),
            r is Ok ==> !final(self).is_exhausted() && pair_at(final(self).len(), final(self).position())
                == (i as nat, j as nat),
    {
        if i == j || i >= self.slice.len() || j >= self.slice.len() {
            return Err(IterError::InvalidIndex);
        }
        proof {
            lemma_pair_at_index(self.slice@.len(), i as nat, j as nat);
        }
        self.first = i;
        self.second = j;
        Ok(())
    }

    /// Drives the iteration to exhaustion, calling `callback` once per
    /// remaining pair, in order, with the two elements of the pair, each
    /// access valid for that call only.
    ///
    /// The backing slice goes through the states of a trace: one step per
    /// remaining pair, each step one call of `callback` on that pair.
    pub fn safe_for_each<F: Fn(&mut T, &mut T)>(&mut self, callback: F)
        requires
            old(self).wf(),
            forall|a: &mut T, b: &mut T| #[trigger] call_requires(callback, (a, b)),
        ensures
            final(self).wf(),
            final(self).is_exhausted(),
            final(self).len() == old(self).len(),
            ({
                let n = old(self).len();
                let from = old(self).position();
                exists|st: Seq<Seq<T>>|
                    {
                        &&& st.len() == pair_count(n) - from + 1
                        &&& st[0] == old(self).items()
                        &&& st.last() == final(self).items()
                        &&& forall|k: int|
                            #![trigger st[k]]
                            0 <= k < st.len() - 1 ==> (exists|a: &mut T, b: &mut T|
                                {
                                    let p = pair_at(n, (from + k) as nat);
                                    &&& #[trigger] call_ensures(callback, (a, b), ())
                                    &&& *a == st[k][p.0 as int]
                                    &&& *b == st[k][p.1 as int]
                                    &&& st[k + 1] == st[k].update(p.0 as int, *final(a)).update(
                                        p.1 as int,
                                        *final(b),
                                    )
                                })
                    }
            }),
    {
        proof {
            self.lemma_position();
        }
        let ghost start = self.position();
        let ghost n = self.len();
        let ghost mut st: Seq<Seq<T>> = seq![self.items()];
        loop
            invariant
                self.wf(),
                self.len() == n,
                n >= 2,
                start <= self.position() <= pair_count(n),
                forall|a: &mut T, b: &mut T| #[trigger] call_requires(callback, (a, b)),
                forall|m: int|
                    #![trigger st[m]]
                    0 <= m < st.len() - 1 ==> (exists|a: &mut T, b: &mut T|
                        {
                            let p = pair_at(n, (start + m) as nat);
                            &&& #[trigger] call_ensures(callback, (a, b), ())
                            &&& *a == st[m][p.0 as int]
                            &&& *b == st[m][p.1 as int]
                            &&& st[m + 1] == st[m].update(p.0 as int, *final(a)).update(p.1 as int, *final(b))
                        }),
                st.len() == self.position() - start + 1,
                st[0] == old(self).items(),
                st.last() == self.items(),
            ensures
                self.wf(),
                self.len() == n,
                self.is_exhausted(),
                st.len() == pair_count(n) - start + 1,
                st[0] == old(self).items(),
                st.last() == self.items(),
            decreases pair_count(self.len()) - self.position(),
        {
            proof {
                self.lemma_position();
            }
            let ghost before = self.items();
            let ghost k = self.position();
            match self.next_mut() {
                None => {
                    proof {
                        self.lemma_position();
                    }
                    break ;
                },
                Some((a, b)) => {
                    let ghost a0 = *a;
                    let ghost b0 = *b;
                    callback(a, b);
                    proof {
                        let p = pair_at(n, k);
                        // The call ran on reborrows of `a` and `b`, which end with the
                        // values that `a` and `b` now hold.
                        assert(exists|x: &mut T, y: &mut T|
                            #[trigger] call_ensures(callback, (x, y), ()) && *x == a0 && *y == b0
                                && *final(x) == *a && *final(y) == *b);
                        assert(has_resolved(a) && has_resolved(b));
                        assert(self.items() == before.update(p.0 as int, *a).update(p.1 as int, *b));
                        let st0 = st;
                        st = st.push(self.items());
                        assert forall|m: int|
                            #![trigger st[m]]
                            0 <= m < st.len() - 1 implies (exists|a: &mut T, b: &mut T|
                                {
                                    let p = pair_at(n, (start + m) as nat);
                                    &&& #[trigger] call_ensures(callback, (a, b), ())
                                    &&& *a == st[m][p.0 as int]
                                    &&& *b == st[m][p.1 as int]
                                    &&& st[m + 1] == st[m].update(p.0 as int, *final(a)).update(p.1 as int, *final(b))
                                }) by {
                            if m < st0.len() - 1 {
                                assert(st[m] == st0[m]);
                                assert(st[m + 1] == st0[m + 1]);
                            } else {
                                assert(st[m] == before);
                                assert(st[m + 1] == self.items());
                                assert((start + m) as nat == k);
                            }
                        }
                    }
                },
            }
        }
    }
}

/// Rank of the pair at which the line of `line` starts: its column is the
/// one after `line`, wrapping to `0` (`(line + 1) % n`).
pub open spec fn line_start(n: nat, line: nat) -> nat {
    pair_index(n, line, if line + 1 < n { line + 1 } else { 0 })
}

/// Iterates over the pairs of a `DoubleIterator` while their first position
/// stays equal to a fixed line.
pub struct SingleLineIterator<'a, T> {
    inner: DoubleIterator<'a, T>,
    line: usize,
}

impl<'a, T> SingleLineIterator<'a, T> {
    /// The underlying pair iterator is well formed.
    pub closed spec fn wf(&self) -> bool {
        self.inner.wf()
    }

    /// The underlying pair iterator.
    pub closed spec fn inner(&self) -> DoubleIterator<'a, T> {
        self.inner
    }

    /// The fixed first position.
    pub closed spec fn line(&self) -> nat {
        self.line as nat
    }

    /// Whether the next pair of the underlying iterator lies on the line.
    pub open spec fn on_line(&self) -> bool {
        &&& !self.inner().is_exhausted()
        &&& pair_at(self.inner().len(), self.inner().position()).0 == self.line()
    }

    /// Creates an iterator over the pairs of `slice` whose first position is
    /// `line`, starting at the column after `line`.
    pub fn new(slice: &'a mut [T], line: usize) -> (r: Result<Self, IterError>)
        ensures
            r is Err <==> old(slice)@.len() < 2 || line >= old(slice)@.len(),
            r matches Err(e) ==> (if old(slice)@.len() < 2 {
                e == IterError::InvalidLength
            } else {
                e == IterError::InvalidIndex
            }),
            r is Err ==> final(slice)@ == old(slice)@,
            r matches Ok(it) ==> {
                &&& it.wf()
                &&& it.line() == line
                &&& it.inner().items() == old(slice)@
                &&& it.inner().position() == line_start(old(slice)@.len(), line as nat)
            },
    {
        if slice.len() < 2 {
            return Err(IterError::InvalidLength);
        }
        if line >= slice.len() {
            return Err(IterError::InvalidIndex);
        }
        let n = slice.len();
        let mut inner = match DoubleIterator::new(slice) {
            Ok(it) => it,
            Err(e) => {
                return Err(e);
            },
        };
        let column = if line + 1 < n { line + 1 } else { 0 };
        let set = inner.set(line, column);
        assert(set is Ok);
        Ok(SingleLineIterator { inner, line })
    }

    /// Restricts `iter` to the line of the pair that it yields next; an
    /// exhausted iterator gives an iterator that yields nothing.
    pub fn from(iter: DoubleIterator<'a, T>) -> (r: Self)
        requires
            iter.wf(),
        ensures
            r.wf(),
            r.inner() == iter,
            iter.is_exhausted() ==> r.line() == iter.len(),
            !iter.is_exhausted() ==> r.line() == pair_at(iter.len(), iter.position()).0,
    {
        proof {
            iter.lemma_position();
        }
        let line = iter.first;
        SingleLineIterator { inner: iter, line }
    }

    /// Yields the positions of the next pair on the line, or `None` once the
    /// underlying iteration leaves the line or is exhausted.
    pub fn next(&mut self) -> (r: Option<(usize, usize)>)
        requires
            old(self).wf(),
        ensures
            final(self).wf(),
            final(self).line() == old(self).line(),
            final(self).inner().items() == old(self).inner().items(),
            !old(self).on_line() ==> r is None && final(self).inner().position()
                == old(self).inner().position(),
            old(self).on_line() ==> r is Some && same_pair(
                r->0,
                pair_at(old(self).inner().len(), old(self).inner().position()),
            ) && final(self).inner().position() == old(self).inner().position() + 1,
    {
        proof {
            self.inner.lemma_position();
        }
        if self.inner.first != self.line {
            return None;
        }
        self.inner.next()
    }

    /// Yields mutable accesses to the two elements of the next pair on the
    /// line, or `None` once the underlying iteration leaves the line or is
    /// exhausted.
    pub fn next_mut(&mut self) -> (r: Option<(&mut T, &mut T)>)
        requires
            old(self).wf(),
        ensures
            final(self).wf(),
            final(self).line() == old(self).line(),
            !old(self).on_line() ==> r is None && final(self).inner().position()
                == old(self).inner().position() && final(self).inner().items() == old(self).inner().items(),
            old(self).on_line() ==> r is Some && final(self).inner().position()
                == old(self).inner().position() + 1 && ({
                let (i, j) = pair_at(old(self).inner().len(), old(self).inner().position());
                let (a, b) = r->0;
                &&& *a == old(self).inner().items()[i as int]
                &&& *b == old(self).inner().items()[j as int]
                &&& final(self).inner().items() == old(self).inner().items().update(
                    i as int,
                    *final(a),
                ).update(j as int, *final(b))
            }),
    {
        proof {
            self.inner.lemma_position();
        }
        if self.inner.first != self.line {
            return None;
        }
        self.inner.next_mut()
    }

    /// Returns to the start of the line; an iterator over no line stays as it is.
    pub fn reset(&mut self)
        requires
            old(self).wf(),
        ensures
            final(self).wf(),
            final(self).line() == old(self).line(),
            final(self).inner().items() == old(self).inner().items(),
            old(self).line() < old(self).inner().len() ==> final(self).inner().position()
                == line_start(old(self).inner().len(), old(self).line()),
            old(self).line() >= old(self).inner().len() ==> final(self).inner().position()
                == old(self).inner().position(),
    {
        proof {
            self.inner.lemma_position();
        }
        let n = self.inner.slice.len();
        if self.line < n {
            let column = if self.line + 1 < n { self.line + 1 } else { 0 };
            let set = self.inner.set(self.line, column);
            assert(set is Ok);
        }
    }
}

} // verus!
