//! The pairs of a collection: every way to pick two of its items.

use itertools::Itertools;
use vstd::prelude::*;

verus! {

/// The pairs `(i, j)` with `j` running over `i + 1 .. n`, in ascending
/// order of `j`.
pub open spec fn pairs_led_by(i: int, n: int) -> Seq<(int, int)> {
    if i + 1 < n {
        Seq::new((n - i - 1) as nat, |k: int| (i, i + 1 + k))
    } else {
        Seq::empty()
    }
}

/// The pairs `(a, b)` with `a < i` and `a < b < n`, in lexicographic order.
pub open spec fn pairs_below(i: int, n: int) -> Seq<(int, int)>
    decreases i,
{
    if i <= 0 {
        Seq::empty()
    } else {
        pairs_below(i - 1, n) + pairs_led_by(i - 1, n)
    }
}

/// Every way to pick two of `n` things, each once, as a pair of indices
/// `(i, j)` with `i < j < n`; the pairs stand in lexicographic order.
pub open spec fn all_pairs(n: int) -> Seq<(int, int)> {
    pairs_below(n, n)
}

/// Each pair of `pairs_below(i, n)` is a pair of two different indices
/// below `n`, the smaller first and below `i`.
pub proof fn lemma_pairs_below_in_range(i: int, n: int, k: int)
    requires
        0 <= i <= n,
        0 <= k < pairs_below(i, n).len(),
    ensures
        0 <= pairs_below(i, n)[k].0 < i,
        pairs_below(i, n)[k].0 < pairs_below(i, n)[k].1 < n,
    decreases i,
{
    if i > 0 {
        let before = pairs_below(i - 1, n);
        if k < before.len() {
            lemma_pairs_below_in_range(i - 1, n, k);
        }
    }
}

/// Each of the pairs of `n` things holds two different indices below `n`,
/// the smaller first.
pub proof fn lemma_all_pairs_in_range(n: int, k: int)
    requires
        0 <= n,
        0 <= k < all_pairs(n).len(),
    ensures
        0 <= all_pairs(n)[k].0 < all_pairs(n)[k].1 < n,
{
    lemma_pairs_below_in_range(n, n, k);
}

/// Whether the pair `a` stands before the pair `b` in lexicographic order.
pub open spec fn pair_before(a: (int, int), b: (int, int)) -> bool {
    a.0 < b.0 || (a.0 == b.0 && a.1 < b.1)
}

/// The pairs of `pairs_below(i, n)` ascend strictly.
pub proof fn lemma_pairs_below_ascend(i: int, n: int, p: int, q: int)
    requires
        0 <= i <= n,
        0 <= p < q < pairs_below(i, n).len(),
    ensures
        pair_before(pairs_below(i, n)[p], pairs_below(i, n)[q]),
    decreases i,
{
    if i > 0 {
        let before = pairs_below(i - 1, n);
        if q < before.len() {
            lemma_pairs_below_ascend(i - 1, n, p, q);
        } else if p < before.len() {
            lemma_pairs_below_in_range(i - 1, n, p);
        }
    }
}

/// `pairs_below(m, n)` holds every pair whose smaller index is below `m`.
pub proof fn lemma_pairs_below_hold(m: int, n: int, i: int, j: int)
    requires
        0 <= i < j < n,
        i < m <= n,
    ensures
        pairs_below(m, n).contains((i, j)),
    decreases m,
{
    let before = pairs_below(m - 1, n);
    if i == m - 1 {
        assert(pairs_below(m, n)[before.len() + j - i - 1] == (i, j));
    } else {
        lemma_pairs_below_hold(m - 1, n, i, j);
        let k = choose|k: int| 0 <= k < before.len() && before[k] == (i, j);
        assert(pairs_below(m, n)[k] == (i, j));
    }
}

/// `pairs_below(i, n)` holds `i * (2 * n - i - 1) / 2` pairs.
pub proof fn lemma_pairs_below_len(i: int, n: int)
    requires
        0 <= i <= n,
    ensures
        2 * pairs_below(i, n).len() == i * (2 * n - i - 1),
    decreases i,
{
    if i > 0 {
        lemma_pairs_below_len(i - 1, n);
        assert((i - 1) * (2 * n - i) + 2 * (n - i) == i * (2 * n - i - 1)) by (nonlinear_arith);
    } else {
        assert(0 * (2 * n - 0 - 1) == 0) by (nonlinear_arith);
    }
}

/// Of `n` things there are `n * (n - 1) / 2` pairs; they ascend strictly
/// in lexicographic order, so that none occurs twice; and every pair of two
/// different indices below `n`, the smaller first, is among them.
pub proof fn lemma_all_pairs(n: int)
    requires
        0 <= n,
    ensures
        2 * all_pairs(n).len() == n * (n - 1),
        forall|p: int, q: int|
            0 <= p < q < all_pairs(n).len() ==> pair_before(
                #[trigger] all_pairs(n)[p],
                #[trigger] all_pairs(n)[q],
            ),
        forall|i: int, j: int| 0 <= i < j < n ==> all_pairs(n).contains((i, j)),
{
    lemma_pairs_below_len(n, n);
    assert(n * (2 * n - n - 1) == n * (n - 1)) by (nonlinear_arith);
    assert forall|p: int, q: int| 0 <= p < q < all_pairs(n).len() implies pair_before(
        #[trigger] all_pairs(n)[p],
        #[trigger] all_pairs(n)[q],
    ) by {
        lemma_pairs_below_ascend(n, n, p, q);
    }
    assert forall|i: int, j: int| 0 <= i < j < n implies all_pairs(n).contains((i, j)) by {
        lemma_pairs_below_hold(n, n, i, j);
    }
}

/// The index pairs of a collection of `n` items.
///
/// Calls `itertools::Itertools::combinations` with `k = 2` on the range
/// `0..n`. That adaptor yields each two-element combination of the items it
/// is given, as a vector of two, in lexicographic order of their positions;
/// on a range of indices these are the index pairs `(i, j)` with
/// `i < j < n`, in the order `(0, 1), (0, 2), ..., (1, 2), ...`. The
/// contract says exactly that, and Verus takes it on trust: the body is
/// not verified.
#[verifier::external_body]
pub(crate) fn index_pairs(n: usize) -> (pairs: Vec<(usize, usize)>)
    ensures
        pairs@.map_values(|p: (usize, usize)| (p.0 as int, p.1 as int)) == all_pairs(n as int),
{
    (0..n).combinations(2).map(|pair| (pair[0], pair[1])).collect()
}

} // verus!
