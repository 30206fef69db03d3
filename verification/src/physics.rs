//! The order in which the bodies act on each other during one frame.
//!
//! Each frame, every body `i` in turn feels the pull of every other body `j`,
//! `j` running through the scene in order; a body never acts on itself. The
//! pulls are applied one after the other, so their order matters.
use vstd::prelude::*;

verus! {

/// Schedules the pairwise gravity interactions of a frame.
pub struct GravityCalculator;

/// The `k`-th ordered pair `(i, j)` of the schedule for `n` bodies: row `i`
/// holds the `n - 1` partners of body `i` in increasing order.
pub open spec fn pair_at(n: int, k: int) -> (int, int) {
    let i = k / (n - 1);
    let r = k % (n - 1);
    (i, if r < i { r } else { r + 1 })
}

/// The position of pair `(i, j)` in the schedule for `n` bodies.
pub open spec fn pair_position(n: int, i: int, j: int) -> int {
    i * (n - 1) + if j < i { j } else { j - 1 }
}

impl GravityCalculator {
    /// The ordered pairs `(i, j)` of distinct bodies among `count`, in the
    /// order in which the simulation applies the pull of `j` to `i`.
    pub fn interaction_pairs(count: usize) -> (pairs: Vec<(usize, usize)>)
        ensures
            pairs.len() == count * (count - 1),
            forall|k: int|
                0 <= k < pairs.len() ==> ((#[trigger] pairs[k]).0 as int, pairs[k].1 as int)
                    == pair_at(count as int, k),
    {
        let mut pairs: Vec<(usize, usize)> = Vec::new();
        let n = count;
        let mut i: usize = 0;
        while i < n
            invariant
                i <= n,
                pairs.len() == i * (n - 1),
                forall|k: int|
                    0 <= k < pairs.len() ==> ((#[trigger] pairs[k]).0 as int, pairs[k].1 as int)
                        == pair_at(n as int, k),
            decreases n - i,
        {
            let mut j: usize = 0;
            while j < n
                invariant
                    i < n,
                    j <= n,
                    pairs.len() == i * (n - 1) + if j <= i { j as int } else { j - 1 },
                    forall|k: int|
                        0 <= k < pairs.len() ==> ((#[trigger] pairs[k]).0 as int, pairs[k].1 as int)
                            == pair_at(n as int, k),
                decreases n - j,
            {
                if i != j {
                    let ghost base = pairs.len() as int;
                    pairs.push((i, j));
                    proof {
                        let r = if j < i { j as int } else { j - 1 };
                        assert(base == i * (n - 1) + r);
                        vstd::arithmetic::div_mod::lemma_fundamental_div_mod_converse(
                            base,
                            n - 1,
                            i as int,
                            r,
                        );
                    }
                }
                j = j + 1;
            }
            assert((i + 1) * (n - 1) == i * (n - 1) + (n - 1)) by (nonlinear_arith);
            i = i + 1;
        }
        if n == 0 {
            assert(n * (n - 1) == 0);
        }
        pairs
    }
}

/// Every scheduled pair names two different bodies of the scene.
pub proof fn lemma_pair_in_scene(n: int, k: int)
    requires
        0 <= n,
        0 <= k < n * (n - 1),
    ensures
        0 <= pair_at(n, k).0 < n,
        0 <= pair_at(n, k).1 < n,
        pair_at(n, k).0 != pair_at(n, k).1,
{
    if n <= 1 {
        assert(n * (n - 1) <= 0) by (nonlinear_arith)
            requires
                0 <= n <= 1,
        ;
    } else {
        vstd::arithmetic::div_mod::lemma_div_pos_is_pos(k, n - 1);
        vstd::arithmetic::div_mod::lemma_mod_bound(k, n - 1);
        vstd::arithmetic::div_mod::lemma_fundamental_div_mod(k, n - 1);
        let i = k / (n - 1);
        if i >= n {
            assert(k >= n * (n - 1)) by (nonlinear_arith)
                requires
                    i >= n,
                    k == (n - 1) * i + k % (n - 1),
                    k % (n - 1) >= 0,
                    n > 1,
            ;
        }
    }
}

/// Every ordered pair `(i, j)` of different bodies is scheduled, in row `i`
/// at the place of `j` among the partners of `i` in increasing order.
pub proof fn lemma_every_pair_scheduled(n: int, i: int, j: int)
    requires
        0 <= i < n,
        0 <= j < n,
        i != j,
    ensures
        ({
            let k = i * (n - 1) + if j < i { j } else { j - 1 };
            &&& k == pair_position(n, i, j)
            &&& 0 <= k < n * (n - 1)
            &&& pair_at(n, k) == (i, j)
        }),
{
    let r = if j < i { j } else { j - 1 };
    assert(0 <= r < n - 1);
    assert(0 <= i * (n - 1)) by (nonlinear_arith)
        requires
            0 <= i,
            n >= 1,
    ;
    assert(i * (n - 1) + r < n * (n - 1)) by (nonlinear_arith)
        requires
            i < n,
            r < n - 1,
            0 <= r,
    ;
    vstd::arithmetic::div_mod::lemma_fundamental_div_mod_converse(i * (n - 1) + r, n - 1, i, r);
}

/// No pair is scheduled twice.
pub proof fn lemma_pairs_distinct(n: int, k1: int, k2: int)
    requires
        n > 1,
        0 <= k1,
        0 <= k2,
        k1 != k2,
    ensures
        pair_at(n, k1) != pair_at(n, k2),
{
    vstd::arithmetic::div_mod::lemma_fundamental_div_mod(k1, n - 1);
    vstd::arithmetic::div_mod::lemma_fundamental_div_mod(k2, n - 1);
    vstd::arithmetic::div_mod::lemma_mod_bound(k1, n - 1);
    vstd::arithmetic::div_mod::lemma_mod_bound(k2, n - 1);
}

/// The schedule runs row by row: the body that feels the pull never goes back.
pub proof fn lemma_schedule_row_order(n: int, k1: int, k2: int)
    requires
        n > 1,
        0 <= k1 <= k2,
    ensures
        pair_at(n, k1).0 <= pair_at(n, k2).0,
{
    vstd::arithmetic::div_mod::lemma_div_is_ordered(k1, k2, n - 1);
}

/// Within a row, the partners come in increasing order.
pub proof fn lemma_schedule_partner_order(n: int, k1: int, k2: int)
    requires
        n > 1,
        0 <= k1 < k2,
        pair_at(n, k1).0 == pair_at(n, k2).0,
    ensures
        pair_at(n, k1).1 < pair_at(n, k2).1,
{
    vstd::arithmetic::div_mod::lemma_fundamental_div_mod(k1, n - 1);
    vstd::arithmetic::div_mod::lemma_fundamental_div_mod(k2, n - 1);
    vstd::arithmetic::div_mod::lemma_mod_bound(k1, n - 1);
    vstd::arithmetic::div_mod::lemma_mod_bound(k2, n - 1);
}

} // verus!
