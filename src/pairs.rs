//! The order in which the ordered pairs of distinct positions are enumerated.
//!
//! For a sequence of length `n`, the pairs `(i, j)` with `i != j` are taken in
//! lexicographic order, `j` varying fastest. The pair at rank `k` lies in row
//! `k / (n - 1)`; within a row the column skips the diagonal.
use vstd::prelude::*;
use vstd::arithmetic::div_mod::lemma_fundamental_div_mod_converse;

verus! {

/// Number of ordered pairs of distinct positions below `n`.
pub open spec fn pair_count(n: nat) -> nat {
    n * (n - 1) as nat
}

/// Whether `(i, j)` is an ordered pair of distinct positions below `n`.
pub open spec fn is_pair(n: nat, i: nat, j: nat) -> bool {
    i < n && j < n && i != j
}

/// Rank of the pair `(i, j)` in the enumeration order.
pub open spec fn pair_index(n: nat, i: nat, j: nat) -> nat {
    i * (n - 1) as nat + (if j < i { j } else { (j - 1) as nat })
}

/// The pair at rank `k` of the enumeration order.
pub open spec fn pair_at(n: nat, k: nat) -> (nat, nat) {
    let w = (n - 1) as nat;
    let i = k / w;
    let c = k % w;
    (i, if c < i { c } else { c + 1 })
}

/// The whole enumeration for length `n`.
pub open spec fn all_pairs(n: nat) -> Seq<(nat, nat)> {
    Seq::new(pair_count(n), |k: int| pair_at(n, k as nat))
}

/// Ranking a pair and reading the pair back at that rank is the identity.
pub proof fn lemma_pair_at_index(n: nat, i: nat, j: nat)
    requires
        is_pair(n, i, j),
    ensures
        pair_index(n, i, j) < pair_count(n),
        pair_at(n, pair_index(n, i, j)) == (i, j),
{
    let w = (n - 1) as nat;
    let c: nat = if j < i { j } else { (j - 1) as nat };
    assert(c < w);
    lemma_fundamental_div_mod_converse((i * w + c) as int, w as int, i as int, c as int);
    assert(i * w + c < n * w) by (nonlinear_arith)
        requires
            i < n,
            c < w,
    ;
}

/// Every rank below the count names a pair of distinct positions, whose rank it is.
pub proof fn lemma_index_of_pair_at(n: nat, k: nat)
    requires
        n >= 2,
        k < pair_count(n),
    ensures
        is_pair(n, pair_at(n, k).0, pair_at(n, k).1),
        pair_index(n, pair_at(n, k).0, pair_at(n, k).1) == k,
{
    let w = (n - 1) as nat;
    let i = k / w;
    let c = k % w;
    assert(k == i * w + c) by (nonlinear_arith)
        requires
            w > 0,
            i == k / w,
            c == k % w,
    ;
    assert(i < n) by (nonlinear_arith)
        requires
            w > 0,
            k == i * w + c,
            c >= 0,
            k < n * w,
    ;
}

/// The rank after the pair `(i, j)` belongs to the pair that the two-level
/// counter reaches from `(i, j)`: the column advances past the diagonal, and
/// on running off the row the next row starts at column `0`.
pub proof fn lemma_step(n: nat, i: nat, j: nat)
    requires
        is_pair(n, i, j),
    ensures
        ({
            let s = if j + 1 == i { i + 1 } else { j + 1 };
            if s < n {
                is_pair(n, i, s) && pair_index(n, i, s) == pair_index(n, i, j) + 1
            } else if i + 1 < n {
                is_pair(n, i + 1, 0) && pair_index(n, i + 1, 0) == pair_index(n, i, j) + 1
            } else {
                pair_count(n) == pair_index(n, i, j) + 1
            }
        }),
{
    let w = (n - 1) as nat;
    assert((i + 1) * w == i * w + w) by (nonlinear_arith);
    if i + 1 == n {
        assert(n * w == (i + 1) * w);
    }
}

/// The first pair of the enumeration is `(0, 1)`.
pub proof fn lemma_first_pair(n: nat)
    requires
        n >= 2,
    ensures
        pair_count(n) > 0,
        pair_at(n, 0) == (0nat, 1nat),
{
    lemma_pair_at_index(n, 0, 1);
}

/// A full traversal for length `n >= 2` has `n * (n - 1)` pairs; each joins
/// two distinct positions, no pair comes twice, and every ordered pair of
/// distinct positions below `n` comes, at its rank.
pub proof fn lemma_all_pairs(n: nat)
    requires
        n >= 2,
    ensures
        all_pairs(n).len() == n * (n - 1),
        forall|k: int|
            0 <= k < all_pairs(n).len() ==> is_pair(
                n,
                (#[trigger] all_pairs(n)[k]).0,
                all_pairs(n)[k].1,
            ),
        forall|k1: int, k2: int|
            0 <= k1 < all_pairs(n).len() && 0 <= k2 < all_pairs(n).len() && k1 != k2
                ==> #[trigger] all_pairs(n)[k1] != #[trigger] all_pairs(n)[k2],
        forall|i: nat, j: nat|
            is_pair(n, i, j) ==> 0 <= #[trigger] pair_index(n, i, j) < all_pairs(n).len()
                && all_pairs(n)[pair_index(n, i, j) as int] == (i, j),
{
    assert forall|k: int| 0 <= k < all_pairs(n).len() implies is_pair(
        n,
        (#[trigger] all_pairs(n)[k]).0,
        all_pairs(n)[k].1,
    ) by {
        lemma_index_of_pair_at(n, k as nat);
    }
    assert forall|k1: int, k2: int|
        0 <= k1 < all_pairs(n).len() && 0 <= k2 < all_pairs(n).len() && k1 != k2
            implies #[trigger] all_pairs(n)[k1] != #[trigger] all_pairs(n)[k2] by {
        lemma_index_of_pair_at(n, k1 as nat);
        lemma_index_of_pair_at(n, k2 as nat);
    }
    assert forall|i: nat, j: nat| is_pair(n, i, j) implies 0 <= #[trigger] pair_index(n, i, j)
        < all_pairs(n).len() && all_pairs(n)[pair_index(n, i, j) as int] == (i, j) by {
        lemma_pair_at_index(n, i, j);
    }
}

} // verus!
