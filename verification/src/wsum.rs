//! Weighted sums of histogram counts over ranges of a color array.
//!
//! A box of the quantizer covers an index range of the color array; its
//! population and channel sums are weighted sums of histogram counts over
//! that range. The lemmas here let such sums be split at an index, carried
//! across rewrites that only permute a range, and bounded.

use vstd::prelude::*;
use vstd::seq_lib::group_to_multiset_ensures;

verus! {

/// Weighted sum over all of `cs`: each color contributes its histogram count
/// times its weight.
pub open spec fn seq_wsum(cs: Seq<u32>, hist: Seq<u32>, f: spec_fn(u32) -> int) -> int
    decreases cs.len(),
{
    if cs.len() == 0 {
        0
    } else {
        hist[cs[0] as int] * f(cs[0]) + seq_wsum(cs.drop_first(), hist, f)
    }
}

/// Weighted sum over the half-open index range `[lo, hi)` of `colors`.
pub open spec fn range_wsum(
    colors: Seq<u32>,
    hist: Seq<u32>,
    lo: int,
    hi: int,
    f: spec_fn(u32) -> int,
) -> int
    decreases hi - lo,
{
    if lo >= hi {
        0
    } else {
        hist[colors[lo] as int] * f(colors[lo]) + range_wsum(colors, hist, lo + 1, hi, f)
    }
}

/// The constant weight one, under which a weighted sum is a population.
pub open spec fn weight_one() -> spec_fn(u32) -> int {
    |c: u32| 1
}

/// The population of `[lo, hi)`: the total histogram count of the colors
/// there.
pub open spec fn range_pop(colors: Seq<u32>, hist: Seq<u32>, lo: int, hi: int) -> int {
    range_wsum(colors, hist, lo, hi, weight_one())
}

/// A weighted sum splits at any index of its range.
pub proof fn lemma_range_wsum_split(
    colors: Seq<u32>,
    hist: Seq<u32>,
    lo: int,
    m: int,
    hi: int,
    f: spec_fn(u32) -> int,
)
    requires
        lo <= m <= hi,
    ensures
        range_wsum(colors, hist, lo, hi, f) == range_wsum(colors, hist, lo, m, f) + range_wsum(
            colors,
            hist,
            m,
            hi,
            f,
        ),
    decreases m - lo,
{
    if lo < m {
        lemma_range_wsum_split(colors, hist, lo + 1, m, hi, f);
    }
}

/// A weighted sum reads only the colors inside its range.
pub proof fn lemma_range_wsum_congruence(
    c1: Seq<u32>,
    c2: Seq<u32>,
    hist: Seq<u32>,
    lo: int,
    hi: int,
    f: spec_fn(u32) -> int,
)
    requires
        forall|i: int| lo <= i < hi ==> c1[i] == c2[i],
    ensures
        range_wsum(c1, hist, lo, hi, f) == range_wsum(c2, hist, lo, hi, f),
    decreases hi - lo,
{
    if lo < hi {
        lemma_range_wsum_congruence(c1, c2, hist, lo + 1, hi, f);
    }
}

/// A weighted sum over a range is the sum over the extracted subrange.
pub proof fn lemma_range_wsum_is_seq_wsum(
    colors: Seq<u32>,
    hist: Seq<u32>,
    lo: int,
    hi: int,
    f: spec_fn(u32) -> int,
)
    requires
        0 <= lo <= hi <= colors.len(),
    ensures
        range_wsum(colors, hist, lo, hi, f) == seq_wsum(colors.subrange(lo, hi), hist, f),
    decreases hi - lo,
{
    if lo < hi {
        lemma_range_wsum_is_seq_wsum(colors, hist, lo + 1, hi, f);
        assert(colors.subrange(lo, hi).drop_first() =~= colors.subrange(lo + 1, hi));
    }
}

/// Taking any one element out of a sum leaves the sum of the rest.
proof fn lemma_seq_wsum_remove(cs: Seq<u32>, hist: Seq<u32>, f: spec_fn(u32) -> int, j: int)
    requires
        0 <= j < cs.len(),
    ensures
        seq_wsum(cs, hist, f) == hist[cs[j] as int] * f(cs[j]) + seq_wsum(cs.remove(j), hist, f),
    decreases j,
{
    if j == 0 {
        assert(cs.remove(0) =~= cs.drop_first());
    } else {
        lemma_seq_wsum_remove(cs.drop_first(), hist, f, j - 1);
        assert(cs.remove(j).drop_first() =~= cs.drop_first().remove(j - 1));
        assert(cs.remove(j)[0] == cs[0]);
    }
}

/// Two sequences with the same multiset of colors have the same weighted sum.
pub proof fn lemma_seq_wsum_multiset(
    cs1: Seq<u32>,
    cs2: Seq<u32>,
    hist: Seq<u32>,
    f: spec_fn(u32) -> int,
)
    requires
        cs1.to_multiset() == cs2.to_multiset(),
    ensures
        seq_wsum(cs1, hist, f) == seq_wsum(cs2, hist, f),
    decreases cs1.len(),
{
    broadcast use group_to_multiset_ensures;

    if cs1.len() == 0 {
        assert(cs2.to_multiset().len() == 0);
        assert(cs2.len() == 0);
    } else {
        let x = cs1[0];
        assert(cs1.to_multiset().count(x) > 0);
        assert(cs2.to_multiset().count(x) > 0);
        assert(cs2.contains(x));
        let j = choose|j: int| 0 <= j < cs2.len() && cs2[j] == x;
        lemma_seq_wsum_remove(cs2, hist, f, j);
        assert(cs1.remove(0) =~= cs1.drop_first());
        assert(cs1.drop_first().to_multiset() =~= cs2.remove(j).to_multiset()) by {
            assert(cs1.remove(0).to_multiset() == cs1.to_multiset().remove(x));
            assert(cs2.remove(j).to_multiset() == cs2.to_multiset().remove(x));
        }
        lemma_seq_wsum_multiset(cs1.drop_first(), cs2.remove(j), hist, f);
    }
}

/// Two color arrays that agree outside `[lo, hi)` and hold the same multiset
/// overall also hold the same multiset inside `[lo, hi)`.
pub proof fn lemma_permuted_subrange_multiset(c1: Seq<u32>, c2: Seq<u32>, lo: int, hi: int)
    requires
        c1.len() == c2.len(),
        0 <= lo <= hi <= c1.len(),
        c1.to_multiset() == c2.to_multiset(),
        forall|i: int| 0 <= i < lo ==> c1[i] == c2[i],
        forall|i: int| hi <= i < c1.len() ==> c1[i] == c2[i],
    ensures
        c1.subrange(lo, hi).to_multiset() == c2.subrange(lo, hi).to_multiset(),
{
    broadcast use group_to_multiset_ensures;
    broadcast use vstd::seq_lib::lemma_multiset_commutative;
    broadcast use vstd::multiset::group_multiset_axioms;

    let n = c1.len() as int;
    assert(c1 =~= c1.subrange(0, lo) + c1.subrange(lo, hi) + c1.subrange(hi, n));
    assert(c2 =~= c2.subrange(0, lo) + c2.subrange(lo, hi) + c2.subrange(hi, n));
    assert(c1.subrange(0, lo) =~= c2.subrange(0, lo));
    assert(c1.subrange(hi, n) =~= c2.subrange(hi, n));
    let pre = c1.subrange(0, lo);
    let post = c1.subrange(hi, n);
    let m1 = c1.subrange(lo, hi);
    let m2 = c2.subrange(lo, hi);
    assert((pre + m1 + post).to_multiset() == pre.to_multiset().add(m1.to_multiset()).add(
        post.to_multiset(),
    )) by {
        assert((pre + m1).to_multiset() == pre.to_multiset().add(m1.to_multiset()));
    }
    assert((pre + m2 + post).to_multiset() == pre.to_multiset().add(m2.to_multiset()).add(
        post.to_multiset(),
    )) by {
        assert((pre + m2).to_multiset() == pre.to_multiset().add(m2.to_multiset()));
    }
    assert(m1.to_multiset() =~= m2.to_multiset()) by {
        assert forall|x: u32| m1.to_multiset().count(x) == m2.to_multiset().count(x) by {
            assert(pre.to_multiset().add(m1.to_multiset()).add(post.to_multiset()).count(x)
                == pre.to_multiset().count(x) + m1.to_multiset().count(x)
                + post.to_multiset().count(x));
            assert(pre.to_multiset().add(m2.to_multiset()).add(post.to_multiset()).count(x)
                == pre.to_multiset().count(x) + m2.to_multiset().count(x)
                + post.to_multiset().count(x));
        }
    }
}

/// Two color arrays that agree outside `[lo, hi)` and hold the same multiset
/// overall have the same weighted sums over `[lo, hi)`.
pub proof fn lemma_range_wsum_permuted(
    c1: Seq<u32>,
    c2: Seq<u32>,
    hist: Seq<u32>,
    lo: int,
    hi: int,
    f: spec_fn(u32) -> int,
)
    requires
        c1.len() == c2.len(),
        0 <= lo <= hi <= c1.len(),
        c1.to_multiset() == c2.to_multiset(),
        forall|i: int| 0 <= i < lo ==> c1[i] == c2[i],
        forall|i: int| hi <= i < c1.len() ==> c1[i] == c2[i],
    ensures
        range_wsum(c1, hist, lo, hi, f) == range_wsum(c2, hist, lo, hi, f),
{
    lemma_permuted_subrange_multiset(c1, c2, lo, hi);
    lemma_range_wsum_is_seq_wsum(c1, hist, lo, hi, f);
    lemma_range_wsum_is_seq_wsum(c2, hist, lo, hi, f);
    lemma_seq_wsum_multiset(c1.subrange(lo, hi), c2.subrange(lo, hi), hist, f);
}

/// A weighted sum whose weights lie between 0 and `bound` on the range's
/// colors is non-negative and at most `bound` times the population of the
/// same range.
pub proof fn lemma_range_wsum_bounds(
    colors: Seq<u32>,
    hist: Seq<u32>,
    lo: int,
    hi: int,
    f: spec_fn(u32) -> int,
    bound: int,
)
    requires
        bound >= 0,
        forall|i: int| lo <= i < hi ==> 0 <= #[trigger] f(colors[i]) <= bound,
    ensures
        0 <= range_wsum(colors, hist, lo, hi, f) <= bound * range_pop(colors, hist, lo, hi),
    decreases hi - lo,
{
    if lo >= hi {
    } else {
        lemma_range_wsum_bounds(colors, hist, lo + 1, hi, f, bound);
        let h = hist[colors[lo] as int] as int;
        let w = f(colors[lo]);
        assert(0 <= h * w <= h * bound) by (nonlinear_arith)
            requires
                0 <= w <= bound,
                h >= 0,
        ;
        assert(weight_one()(colors[lo]) == 1);
        assert(bound * (h * 1 + range_pop(colors, hist, lo + 1, hi)) == h * bound + bound
            * range_pop(colors, hist, lo + 1, hi)) by (nonlinear_arith);
    }
}

/// The population of a range is non-negative and at most the range's width
/// times the largest histogram count.
pub proof fn lemma_range_pop_bounds(colors: Seq<u32>, hist: Seq<u32>, lo: int, hi: int)
    ensures
        0 <= range_pop(colors, hist, lo, hi),
        range_pop(colors, hist, lo, hi) <= (if hi >= lo {
            (hi - lo) * 0xffff_ffff
        } else {
            0
        }),
    decreases hi - lo,
{
    if lo < hi {
        lemma_range_pop_bounds(colors, hist, lo + 1, hi);
        assert(weight_one()(colors[lo]) == 1);
        assert((hi - lo) * 0xffff_ffff == 0xffff_ffff + (hi - lo - 1) * 0xffff_ffff)
            by (nonlinear_arith);
    }
}

/// Extending a range by one color at its top adds that color's histogram
/// count to the range's population.
pub proof fn lemma_range_pop_extend(colors: Seq<u32>, hist: Seq<u32>, lo: int, i: int)
    requires
        lo <= i,
    ensures
        range_pop(colors, hist, lo, i + 1) == range_pop(colors, hist, lo, i) + hist[
            colors[i] as int],
{
    lemma_range_wsum_split(colors, hist, lo, i, i + 1, weight_one());
    assert(range_wsum(colors, hist, i, i + 1, weight_one()) == hist[colors[i] as int]
        * weight_one()(colors[i]) + range_wsum(colors, hist, i + 1, i + 1, weight_one()));
    assert(weight_one()(colors[i]) == 1);
    assert(range_wsum(colors, hist, i + 1, i + 1, weight_one()) == 0);
}

/// Appending a color extends the full-array population by that color's count.
pub proof fn lemma_range_pop_push(colors: Seq<u32>, hist: Seq<u32>, x: u32)
    ensures
        range_pop(colors.push(x), hist, 0, colors.len() as int + 1) == range_pop(
            colors,
            hist,
            0,
            colors.len() as int,
        ) + hist[x as int],
{
    let n = colors.len() as int;
    lemma_range_wsum_split(colors.push(x), hist, 0, n, n + 1, weight_one());
    lemma_range_wsum_congruence(colors.push(x), colors, hist, 0, n, weight_one());
    assert(weight_one()(x) == 1);
    assert(colors.push(x)[n] == x);
    assert(range_wsum(colors.push(x), hist, n + 1, n + 1, weight_one()) == 0);
    assert(range_wsum(colors.push(x), hist, n, n + 1, weight_one()) == hist[x as int]
        * weight_one()(x) + range_wsum(colors.push(x), hist, n + 1, n + 1, weight_one()));
    assert(hist[x as int] * weight_one()(x) == hist[x as int] * 1);
    assert(range_pop(colors.push(x), hist, 0, n + 1) == range_wsum(
        colors.push(x),
        hist,
        0,
        n + 1,
        weight_one(),
    ));
    assert(range_pop(colors, hist, 0, n) == range_wsum(colors, hist, 0, n, weight_one()));
}

} // verus!
