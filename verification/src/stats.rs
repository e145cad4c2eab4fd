//! Trimmed-mean latency statistics.
//!
//! The latency measurement sorts its samples, discards the lowest and the
//! highest tenth (at least the minimum and maximum once ten samples are in
//! hand) as outliers, and returns the mean of the remainder.

use vstd::prelude::*;
use vstd::relations::{sorted_by, total_ordering};
use vstd::seq_lib::lemma_multiset_commutative;
use vstd::seq_lib::lemma_sorted_unique;

verus! {

/// The order the samples are sorted by.
pub open spec fn u64_leq() -> spec_fn(u64, u64) -> bool {
    |x: u64, y: u64| x <= y
}

pub open spec fn sorted_nondec(s: Seq<u64>) -> bool {
    sorted_by(s, u64_leq())
}

/// The sorted permutation of a sample sequence.
pub open spec fn sorted_of(s: Seq<u64>) -> Seq<u64> {
    s.sort_by(u64_leq())
}

/// How many samples are trimmed from each end: a tenth, rounded down.
pub open spec fn trim_of(n: nat) -> nat {
    n / 10
}

pub open spec fn sum_u64(s: Seq<u64>) -> int
    decreases s.len(),
{
    if s.len() == 0 {
        0
    } else {
        sum_u64(s.drop_last()) + s.last()
    }
}

/// The middle of the sorted samples: everything but the trimmed ends.
pub open spec fn trimmed_middle_spec(s: Seq<u64>) -> Seq<u64>
    recommends
        s.len() >= 1,
{
    sorted_of(s).subrange(trim_of(s.len()) as int, (s.len() - trim_of(s.len())) as int)
}

/// The trimmed mean of a non-empty sample sequence.
pub open spec fn trimmed_mean_spec(s: Seq<u64>) -> int
    recommends
        s.len() >= 1,
{
    sum_u64(trimmed_middle_spec(s)) / (trimmed_middle_spec(s).len() as int)
}

pub proof fn lemma_u64_leq_total()
    ensures
        total_ordering(u64_leq()),
{
}

/// Sorting keeps the length; the sorted sequence is a permutation.
pub proof fn lemma_sorted_of_ensures(s: Seq<u64>)
    ensures
        sorted_of(s).len() == s.len(),
        sorted_of(s).to_multiset() == s.to_multiset(),
        sorted_nondec(sorted_of(s)),
{
    broadcast use vstd::seq_lib::group_to_multiset_ensures;

    lemma_u64_leq_total();
    s.lemma_sort_by_ensures(u64_leq());
    assert(sorted_of(s).to_multiset().len() == s.to_multiset().len());
    assert(sorted_of(s).len() == sorted_of(s).to_multiset().len());
    assert(s.len() == s.to_multiset().len());
}

/// Trimming a tenth from each end of a non-empty sequence leaves something.
pub proof fn lemma_trim_leaves_middle(n: nat)
    requires
        n >= 1,
    ensures
        trim_of(n) + trim_of(n) < n,
{
    assert(n / 10 + n / 10 < n) by (nonlinear_arith)
        requires
            n >= 1,
    ;
}

/// Every element of a sequence bounds its sum: the sum of `s` lies between
/// `s.len()` times the least and `s.len()` times the greatest element.
proof fn lemma_sum_bounds(s: Seq<u64>, lo: u64, hi: u64)
    requires
        forall|i: int| 0 <= i < s.len() ==> lo <= #[trigger] s[i] <= hi,
    ensures
        s.len() * lo <= sum_u64(s) <= s.len() * hi,
    decreases s.len(),
{
    if s.len() == 0 {
    } else {
        lemma_sum_bounds(s.drop_last(), lo, hi);
        assert((s.len() - 1) * lo + lo == s.len() * lo) by (nonlinear_arith);
        assert((s.len() - 1) * hi + hi == s.len() * hi) by (nonlinear_arith);
    }
}

/// A sequence of one constant sums to that constant times the length.
proof fn lemma_sum_constant(s: Seq<u64>, d: u64)
    requires
        forall|i: int| 0 <= i < s.len() ==> #[trigger] s[i] == d,
    ensures
        sum_u64(s) == s.len() * d,
    decreases s.len(),
{
    if s.len() == 0 {
    } else {
        lemma_sum_constant(s.drop_last(), d);
        assert((s.len() - 1) * d + d == s.len() * d) by (nonlinear_arith);
    }
}

/// The min/max trimming law: however the trimmed-off outliers were placed,
/// if every sample that survives the trimming equals `d`, the trimmed mean
/// is exactly `d`. In particular, with ten samples per measurement, a run of
/// eight samples at `d` is immune to one low and one high outlier.
pub proof fn lemma_trimmed_mean_constant_middle(s: Seq<u64>, d: u64)
    requires
        s.len() >= 1,
        forall|i: int|
            trim_of(s.len()) <= i < s.len() - trim_of(s.len()) ==> #[trigger] sorted_of(s)[i]
                == d,
    ensures
        trimmed_mean_spec(s) == d,
{
    let mid = trimmed_middle_spec(s);
    lemma_sorted_of_ensures(s);
    lemma_trim_leaves_middle(s.len());
    assert(forall|i: int| 0 <= i < mid.len() ==> #[trigger] mid[i] == d);
    lemma_sum_constant(mid, d);
    let m = mid.len() as int;
    assert(m >= 1);
    assert((m * d) / m == d) by (nonlinear_arith)
        requires
            m >= 1,
    ;
}

/// The trimmed mean never strays outside the surviving samples' range: it is
/// at least the smallest and at most the greatest untrimmed sample.
pub proof fn lemma_trimmed_mean_within_middle(s: Seq<u64>)
    requires
        s.len() >= 1,
    ensures
        trimmed_middle_spec(s).len() >= 1,
        trimmed_middle_spec(s)[0] <= trimmed_mean_spec(s) <= trimmed_middle_spec(
            s,
        ).last(),
{
    let mid = trimmed_middle_spec(s);
    lemma_sorted_of_ensures(s);
    lemma_trim_leaves_middle(s.len());
    let t = sorted_of(s);
    let k = trim_of(s.len()) as int;
    let lo = mid[0];
    let hi = mid.last();
    assert forall|i: int| 0 <= i < mid.len() implies lo <= #[trigger] mid[i] <= hi by {
        assert(mid[i] == t[k + i]);
        if i > 0 {
            assert(u64_leq()(t[k], t[k + i]));
        }
        if i < mid.len() - 1 {
            assert(u64_leq()(t[k + i], t[k + mid.len() - 1]));
        }
    }
    lemma_sum_bounds(mid, lo, hi);
    let m = mid.len() as int;
    assert(m * lo <= sum_u64(mid) <= m * hi);
    assert(m * lo / m == lo) by (nonlinear_arith)
        requires
            m >= 1,
    ;
    assert(m * hi / m == hi) by (nonlinear_arith)
        requires
            m >= 1,
    ;
    vstd::arithmetic::div_mod::lemma_div_is_ordered(m * lo, sum_u64(mid), m);
    vstd::arithmetic::div_mod::lemma_div_is_ordered(sum_u64(mid), m * hi, m);
}

/// Sort the samples ascending into a fresh vector.
pub fn sort_samples(v: &Vec<u64>) -> (r: Vec<u64>)
    ensures
        r@ == sorted_of(v@),
        r@.len() == v@.len(),
{
    let mut out: Vec<u64> = Vec::new();
    let mut i: usize = 0;
    proof {
        broadcast use vstd::seq_lib::group_to_multiset_ensures;

        assert(v@.subrange(0, 0) =~= out@);
    }
    while i < v.len()
        invariant
            i <= v@.len(),
            forall|p: int, q: int| 0 <= p < q < out@.len() ==> out@[p] <= out@[q],
            out@.to_multiset() == v@.subrange(0, i as int).to_multiset(),
        decreases v@.len() - i,
    {
        let x = v[i];
        let mut pos: usize = 0;
        while pos < out.len() && out[pos] <= x
            invariant
                pos <= out@.len(),
                forall|j: int| 0 <= j < pos ==> out@[j] <= x,
            decreases out@.len() - pos,
        {
            pos = pos + 1;
        }
        proof {
            broadcast use vstd::seq_lib::group_to_multiset_ensures;

            assert(v@.subrange(0, i + 1) =~= v@.subrange(0, i as int).push(v@[i as int]));
        }
        let ghost pre = out@;
        out.insert(pos, x);
        proof {
            broadcast use vstd::seq_lib::group_to_multiset_ensures;

            assert forall|a: int, b: int| 0 <= a < b < out@.len() implies out@[a] <= out@[b] by {
                if b < pos {
                    assert(out@[a] == pre[a] && out@[b] == pre[b]);
                } else if a > pos {
                    assert(out@[a] == pre[a - 1] && out@[b] == pre[b - 1]);
                } else if a == pos {
                    assert(out@[a] == x && out@[b] == pre[b - 1]);
                    assert(b - 1 >= pos && b - 1 < pre.len());
                    assert(pre[pos as int] > x);
                    if b - 1 > pos {
                        assert(pre[pos as int] <= pre[b - 1]);
                    }
                } else if b == pos {
                    assert(out@[a] == pre[a] && out@[b] == x);
                } else {
                    assert(out@[a] == pre[a] && out@[b] == pre[b - 1]);
                    assert(pre[a] <= x);
                }
            }
        }
        i = i + 1;
    }
    proof {
        broadcast use vstd::seq_lib::group_to_multiset_ensures;

        assert(v@.subrange(0, v@.len() as int) =~= v@);
        lemma_u64_leq_total();
        lemma_sorted_of_ensures(v@);
        assert forall|p: int, q: int| 0 <= p < q < out@.len() implies u64_leq()(
            out@[p],
            out@[q],
        ) by {
            assert(out@[p] <= out@[q]);
        }
        lemma_sorted_unique(out@, sorted_of(v@), u64_leq());
    }
    out
}

/// The trimmed mean of the given samples: sort, drop a tenth from each end,
/// average the rest.
pub fn trimmed_mean(v: &Vec<u64>) -> (r: u64)
    requires
        v@.len() >= 1,
    ensures
        r == trimmed_mean_spec(v@),
{
    let sorted = sort_samples(v);
    let n = sorted.len();
    let k = n / 10;
    proof {
        lemma_trim_leaves_middle(n as nat);
    }
    let mut acc: u128 = 0;
    let mut j: usize = k;
    proof {
        assert(trimmed_middle_spec(v@) == sorted@.subrange(k as int, (n - k) as int));
    }
    let ghost mid = trimmed_middle_spec(v@);
    while j < n - k
        invariant
            k <= j <= n - k,
            n == sorted@.len(),
            n == v@.len(),
            1 <= n,
            k == trim_of(n as nat),
            sorted@ == sorted_of(v@),
            mid == trimmed_middle_spec(v@),
            acc == sum_u64(mid.subrange(0, j - k)),
            acc <= (j - k) * 0xffff_ffff_ffff_ffffu64,
        decreases n - k - j,
    {
        proof {
            assert(mid.subrange(0, j - k + 1).drop_last() == mid.subrange(0, j - k));
            assert(mid.subrange(0, j - k + 1).last() == sorted@[j as int]);
            assert((j - k) * 0xffff_ffff_ffff_ffffu64 + 0xffff_ffff_ffff_ffffu64 == (j - k
                + 1) * 0xffff_ffff_ffff_ffffu64) by (nonlinear_arith);
            assert((j - k + 1) * 0xffff_ffff_ffff_ffffu64 <= usize::MAX
                * 0xffff_ffff_ffff_ffffu64) by (nonlinear_arith)
                requires
                    j - k + 1 <= usize::MAX,
            ;
            assert(usize::MAX * 0xffff_ffff_ffff_ffffu64
                < 0xffff_ffff_ffff_ffff_ffff_ffff_ffff_ffffu128) by (nonlinear_arith)
                requires
                    usize::MAX <= 0xffff_ffff_ffff_ffffu64,
            ;
        }
        acc = acc + sorted[j] as u128;
        j = j + 1;
    }
    proof {
        assert(mid.subrange(0, mid.len() as int) == mid);
    }
    let cnt = n - k - k;
    let mean = acc / cnt as u128;
    proof {
        let m = mid.len() as int;
        assert(forall|i: int| 0 <= i < m ==> #[trigger] mid[i] <= 0xffff_ffff_ffff_ffffu64);
        lemma_sum_bounds(mid, 0, 0xffff_ffff_ffff_ffffu64);
        assert(m * 0xffff_ffff_ffff_ffffu64 / m == 0xffff_ffff_ffff_ffffu64) by (nonlinear_arith)
            requires
                m >= 1,
        ;
        vstd::arithmetic::div_mod::lemma_div_is_ordered(
            sum_u64(mid),
            m * 0xffff_ffff_ffff_ffffu64,
            m,
        );
    }
    mean as u64
}

} // verus!
