//! The order in which a collision pass visits pairs of particles.
//!
//! With `n` particles the pass visits every pair of indices `(i, j)` with
//! `i < j < n` exactly once: first all pairs of particle 0 with a later one,
//! then all pairs of particle 1 with a later one, and so on.

use vstd::prelude::*;

verus! {

/// The number of pairs whose first index is `i`.
pub open spec fn row_len(i: int, n: int) -> nat {
    if 0 <= i && i + 1 < n {
        (n - 1 - i) as nat
    } else {
        0
    }
}

/// The pairs whose first index is `i`, the second index rising.
pub open spec fn pair_row(i: int, n: int) -> Seq<(int, int)> {
    Seq::new(row_len(i, n), |k: int| (i, i + 1 + k))
}

/// The pairs whose first index is below `i`, in the order of the visit.
pub open spec fn pairs_before(i: int, n: int) -> Seq<(int, int)>
    decreases i,
{
    if i <= 0 {
        Seq::empty()
    } else {
        pairs_before(i - 1, n) + pair_row(i - 1, n)
    }
}

/// All pairs among `n` particles, in the order of the visit.
pub open spec fn all_pairs(n: int) -> Seq<(int, int)> {
    pairs_before(n, n)
}

/// `a` comes before `b` when pairs are ordered by their first index and then
/// by their second.
pub open spec fn pair_precedes(a: (int, int), b: (int, int)) -> bool {
    a.0 < b.0 || (a.0 == b.0 && a.1 < b.1)
}

/// The place of the pair `(i, j)` in the visit.
pub open spec fn pair_index(i: int, j: int, n: int) -> int {
    pairs_before(i, n).len() + (j - i - 1)
}

/// The rows up to `i` hold only pairs of indices below `n`, the first below
/// `i` and below the second, and hold them in rising order.
pub proof fn lemma_pairs_before_sorted(i: int, n: int)
    requires
        0 <= i <= n,
    ensures
        forall|k: int|
            0 <= k < pairs_before(i, n).len() ==> {
                let pair = #[trigger] pairs_before(i, n)[k];
                0 <= pair.0 < pair.1 < n && pair.0 < i
            },
        forall|k: int, m: int|
            0 <= k < m < pairs_before(i, n).len() ==> pair_precedes(
                #[trigger] pairs_before(i, n)[k],
                #[trigger] pairs_before(i, n)[m],
            ),
    decreases i,
{
    if i > 0 {
        lemma_pairs_before_sorted(i - 1, n);
        let head = pairs_before(i - 1, n);
        let row = pair_row(i - 1, n);
        assert(pairs_before(i, n) == head + row);
        assert forall|k: int| 0 <= k < pairs_before(i, n).len() implies {
            let pair = #[trigger] pairs_before(i, n)[k];
            0 <= pair.0 < pair.1 < n && pair.0 < i
        } by {
            if k < head.len() {
                assert(pairs_before(i, n)[k] == head[k]);
            } else {
                assert(pairs_before(i, n)[k] == row[k - head.len()]);
            }
        }
        assert forall|k: int, m: int| 0 <= k < m < pairs_before(i, n).len() implies pair_precedes(
            #[trigger] pairs_before(i, n)[k],
            #[trigger] pairs_before(i, n)[m],
        ) by {
            if m < head.len() {
                assert(pairs_before(i, n)[k] == head[k]);
                assert(pairs_before(i, n)[m] == head[m]);
            } else if k < head.len() {
                assert(pairs_before(i, n)[k] == head[k]);
                assert(pairs_before(i, n)[m] == row[m - head.len()]);
            } else {
                assert(pairs_before(i, n)[k] == row[k - head.len()]);
                assert(pairs_before(i, n)[m] == row[m - head.len()]);
            }
        }
    }
}

/// The rows up to `a` open the rows up to any later `b`.
pub proof fn lemma_pairs_before_prefix(a: int, b: int, n: int)
    requires
        0 <= a <= b,
    ensures
        pairs_before(a, n).len() <= pairs_before(b, n).len(),
        pairs_before(b, n).subrange(0, pairs_before(a, n).len() as int) == pairs_before(a, n),
    decreases b - a,
{
    if a < b {
        lemma_pairs_before_prefix(a, b - 1, n);
        let head = pairs_before(b - 1, n);
        assert(pairs_before(b, n) == head + pair_row(b - 1, n));
        assert(pairs_before(b, n).subrange(0, pairs_before(a, n).len() as int) =~= head.subrange(
            0,
            pairs_before(a, n).len() as int,
        ));
    } else {
        assert(pairs_before(b, n).subrange(0, pairs_before(a, n).len() as int) =~= pairs_before(
            a,
            n,
        ));
    }
}

/// Every pair is visited: `(i, j)` stands at its place in the visit.
pub proof fn lemma_pair_is_visited(i: int, j: int, n: int)
    requires
        0 <= i < j < n,
    ensures
        0 <= pair_index(i, j, n) < all_pairs(n).len(),
        all_pairs(n)[pair_index(i, j, n)] == (i, j),
        pair_index(i, j, n) < pairs_before(i + 1, n).len(),
        pairs_before(i + 1, n).len() == pairs_before(i, n).len() + row_len(i, n),
{
    let head = pairs_before(i, n);
    let row = pair_row(i, n);
    let through = pairs_before(i + 1, n);
    assert(through == head + row);
    assert(row[j - i - 1] == (i, j));
    assert(through[pair_index(i, j, n)] == row[j - i - 1]);
    lemma_pairs_before_prefix(i + 1, n, n);
    assert(all_pairs(n).subrange(0, through.len() as int)[pair_index(i, j, n)] == all_pairs(
        n,
    )[pair_index(i, j, n)]);
}

/// Only pairs are visited, and none twice: each entry of the visit is a pair
/// `(i, j)` with `i < j < n`, and entries rise strictly along the visit.
pub proof fn lemma_visit_is_sorted(n: int)
    requires
        0 <= n,
    ensures
        forall|k: int|
            0 <= k < all_pairs(n).len() ==> {
                let pair = #[trigger] all_pairs(n)[k];
                0 <= pair.0 < pair.1 < n
            },
        forall|k: int, m: int|
            0 <= k < m < all_pairs(n).len() ==> pair_precedes(
                #[trigger] all_pairs(n)[k],
                #[trigger] all_pairs(n)[m],
            ),
{
    lemma_pairs_before_sorted(n, n);
}

/// The rows up to `i` hold `i * (2n - i - 1) / 2` pairs.
pub proof fn lemma_pairs_before_len(i: int, n: int)
    requires
        0 <= i <= n,
    ensures
        2 * pairs_before(i, n).len() == i * (2 * n - i - 1),
    decreases i,
{
    if i > 0 {
        lemma_pairs_before_len(i - 1, n);
        assert(pairs_before(i, n) == pairs_before(i - 1, n) + pair_row(i - 1, n));
        assert(pairs_before(i, n).len() == pairs_before(i - 1, n).len() + (n - i));
        assert((i - 1) * (2 * n - (i - 1) - 1) + 2 * (n - i) == i * (2 * n - i - 1))
            by (nonlinear_arith);
    } else {
        assert(i * (2 * n - i - 1) == 0) by (nonlinear_arith)
            requires
                i == 0,
        ;
    }
}

/// Among `n` particles the visit has `n * (n - 1) / 2` pairs.
pub proof fn lemma_pair_count(n: int)
    requires
        0 <= n,
    ensures
        2 * all_pairs(n).len() == n * (n - 1),
{
    lemma_pairs_before_len(n, n);
    assert(n * (2 * n - n - 1) == n * (n - 1)) by (nonlinear_arith);
}

} // verus!
