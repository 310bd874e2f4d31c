//! Descriptive statistics over a series of fixed-point samples.
//!
//! A sample is a `u32`; for percentages it counts hundredths of a percent
//! (`2550` is 25.5 %). Averages and medians round down, the standard
//! deviation is the integer square root (rounded down) of the mean squared
//! deviation from the reported average.

use vstd::prelude::*;
use vstd::relations::{sorted_by, total_ordering};
use vstd::seq_lib::lemma_sorted_unique;
use vstd::arithmetic::div_mod::{lemma_div_is_ordered, lemma_div_multiples_vanish};

verus! {

/// Summary statistics of one metric's history.
#[derive(Clone, Copy, Debug, PartialEq, Eq)]
pub struct StatsSummary {
    pub current: u32,
    pub average: u32,
    pub min: u32,
    pub max: u32,
    pub median: u32,
    pub std_deviation: u32,
    pub sample_count: usize,
}

/// The summary of an empty history.
pub open spec fn zero_summary() -> StatsSummary {
    StatsSummary {
        current: 0,
        average: 0,
        min: 0,
        max: 0,
        median: 0,
        std_deviation: 0,
        sample_count: 0,
    }
}

/// The ascending order on samples.
pub open spec fn ascending() -> spec_fn(u32, u32) -> bool {
    |a: u32, b: u32| a <= b
}

/// The samples of `v` in ascending order.
pub open spec fn sorted_values(v: Seq<u32>) -> Seq<u32> {
    v.sort_by(ascending())
}

/// The sum of the samples.
pub open spec fn total(v: Seq<u32>) -> nat
    decreases v.len(),
{
    if v.len() == 0 {
        0
    } else {
        total(v.drop_last()) + v.last() as nat
    }
}

/// The sum of squared distances of the samples from `center`.
pub open spec fn square_deviation(v: Seq<u32>, center: int) -> nat
    decreases v.len(),
{
    if v.len() == 0 {
        0
    } else {
        square_deviation(v.drop_last(), center) + ((v.last() - center) * (v.last() - center)) as nat
    }
}

/// The average of the samples, rounded down (zero for no samples).
pub open spec fn mean(v: Seq<u32>) -> nat {
    if v.len() == 0 {
        0
    } else {
        total(v) / v.len()
    }
}

/// The middle element of an ascending sequence; for an even length the
/// mean of the two middle elements, rounded down.
pub open spec fn median_of_sorted(s: Seq<u32>) -> nat {
    let n = s.len() as int;
    if n % 2 == 0 {
        ((s[n / 2 - 1] + s[n / 2]) / 2) as nat
    } else {
        s[n / 2] as nat
    }
}

/// `r` is the integer square root of `v`.
pub open spec fn is_root(r: nat, v: nat) -> bool {
    r * r <= v && v < (r + 1) * (r + 1)
}

/// The integer square root of `v` (the square root rounded down).
pub open spec fn isqrt(v: nat) -> nat {
    choose|r: nat| is_root(r, v)
}

/// The population variance around the reported average, rounded down.
pub open spec fn variance(v: Seq<u32>) -> nat {
    if v.len() == 0 {
        0
    } else {
        square_deviation(v, mean(v) as int) / v.len()
    }
}

/// The statistics of a series, oldest sample first.
pub open spec fn summary_of(v: Seq<u32>) -> StatsSummary {
    if v.len() == 0 {
        zero_summary()
    } else {
        let s = sorted_values(v);
        StatsSummary {
            current: v.last(),
            average: mean(v) as u32,
            min: s[0],
            max: s[s.len() - 1],
            median: median_of_sorted(s) as u32,
            std_deviation: isqrt(variance(v)) as u32,
            sample_count: v.len() as usize,
        }
    }
}

pub proof fn lemma_ascending_total()
    ensures
        total_ordering(ascending()),
{
}

/// The integer square root is unique.
pub proof fn lemma_isqrt_unique(r: nat, v: nat)
    requires
        is_root(r, v),
    ensures
        isqrt(v) == r,
{
    let q = isqrt(v);
    assert(is_root(q, v));
    if q < r {
        assert((q + 1) * (q + 1) <= r * r) by (nonlinear_arith)
            requires
                q + 1 <= r,
        ;
    } else if r < q {
        assert((r + 1) * (r + 1) <= q * q) by (nonlinear_arith)
            requires
                r + 1 <= q,
        ;
    }
}

/// Bounds on a sum whose terms all lie in `[lo, hi]`.
pub proof fn lemma_total_bounds(v: Seq<u32>, lo: int, hi: int)
    requires
        forall|i: int| 0 <= i < v.len() ==> lo <= #[trigger] v[i] <= hi,
    ensures
        v.len() * lo <= total(v) <= v.len() * hi,
    decreases v.len(),
{
    if v.len() > 0 {
        let w = v.drop_last();
        assert forall|i: int| 0 <= i < w.len() implies lo <= #[trigger] w[i] <= hi by {
            assert(w[i] == v[i]);
        }
        lemma_total_bounds(w, lo, hi);
        assert(v.len() * lo == w.len() * lo + lo) by (nonlinear_arith)
            requires
                v.len() == w.len() + 1,
        ;
        assert(v.len() * hi == w.len() * hi + hi) by (nonlinear_arith)
            requires
                v.len() == w.len() + 1,
        ;
    }
}

/// Every sample lies between the first and the last element of the sorted samples.
proof fn lemma_sorted_brackets(v: Seq<u32>)
    requires
        v.len() > 0,
    ensures
        sorted_values(v).len() == v.len(),
        sorted_by(sorted_values(v), ascending()),
        forall|i: int|
            0 <= i < v.len() ==> sorted_values(v)[0] <= #[trigger] v[i] <= sorted_values(v)[v.len()
                - 1],
        forall|j: int| 0 <= j < v.len() ==> v.contains(#[trigger] sorted_values(v)[j]),
{
    let s = sorted_values(v);
    lemma_ascending_total();
    v.lemma_sort_by_ensures(ascending());
    v.to_multiset_ensures();
    s.to_multiset_ensures();
    assert(s.len() == v.len()) by {
        assert(s.to_multiset().len() == v.to_multiset().len());
    }
    assert forall|i: int| 0 <= i < v.len() implies s[0] <= #[trigger] v[i] <= s[v.len() - 1] by {
        assert(v.to_multiset().count(v[i]) > 0);
        assert(s.contains(v[i]));
        let j = choose|j: int| 0 <= j < s.len() && s[j] == v[i];
        if j > 0 {
            assert((ascending())(s[0], s[j]));
        }
        if j < s.len() - 1 {
            assert((ascending())(s[j], s[s.len() - 1]));
        }
    }
    assert forall|j: int| 0 <= j < v.len() implies v.contains(#[trigger] s[j]) by {
        assert(s.to_multiset().count(s[j]) > 0);
    }
}

/// Order of the summary: `min <= median <= max` and `min <= average <= max`.
pub proof fn lemma_summary_ordered(v: Seq<u32>)
    requires
        v.len() > 0,
    ensures
        summary_of(v).min <= summary_of(v).median <= summary_of(v).max,
        summary_of(v).min <= summary_of(v).average <= summary_of(v).max,
{
    let s = sorted_values(v);
    let n = v.len() as int;
    lemma_sorted_brackets(v);
    if n > 1 {
        assert((ascending())(s[0], s[n / 2]));
        assert((ascending())(s[n / 2], s[n - 1]));
    }
    if n % 2 == 0 {
        if n / 2 - 1 > 0 {
            assert((ascending())(s[0], s[n / 2 - 1]));
        }
        assert((ascending())(s[n / 2 - 1], s[n / 2]));
    }
    lemma_total_bounds(v, s[0] as int, s[n - 1] as int);
    lemma_div_is_ordered((n * s[0]) as int, total(v) as int, n as int);
    lemma_div_is_ordered(total(v) as int, (n * s[n - 1]) as int, n as int);
    lemma_div_multiples_vanish(s[0] as int, n as int);
    lemma_div_multiples_vanish(s[n - 1] as int, n as int);
}

proof fn lemma_square_deviation_constant(v: Seq<u32>, c: u32)
    requires
        forall|i: int| 0 <= i < v.len() ==> #[trigger] v[i] == c,
    ensures
        square_deviation(v, c as int) == 0,
    decreases v.len(),
{
    if v.len() > 0 {
        let w = v.drop_last();
        assert forall|i: int| 0 <= i < w.len() implies #[trigger] w[i] == c by {
            assert(w[i] == v[i]);
        }
        lemma_square_deviation_constant(w, c);
        assert(v.last() == v[v.len() - 1]);
        assert((v.last() - c) * (v.last() - c) == 0);
    }
}

/// A constant series has that constant as its minimum, maximum, median and
/// average, and a standard deviation of zero.
pub proof fn lemma_summary_constant(v: Seq<u32>, c: u32)
    requires
        v.len() > 0,
        forall|i: int| 0 <= i < v.len() ==> #[trigger] v[i] == c,
    ensures
        summary_of(v).min == c,
        summary_of(v).max == c,
        summary_of(v).median == c,
        summary_of(v).average == c,
        summary_of(v).std_deviation == 0,
{
    let s = sorted_values(v);
    let n = v.len();
    lemma_sorted_brackets(v);
    assert forall|j: int| 0 <= j < n implies #[trigger] s[j] == c by {
        assert(v.contains(s[j]));
    }
    lemma_total_bounds(v, c as int, c as int);
    lemma_div_multiples_vanish(c as int, n as int);
    assert(mean(v) == c);
    lemma_square_deviation_constant(v, c);
    assert(variance(v) == 0);
    assert(is_root(0, 0)) by (nonlinear_arith);
    lemma_isqrt_unique(0, 0);
}

/// Relies on `slice::sort_unstable`: afterwards the vector holds the same
/// samples in ascending order.
#[verifier::external_body]
fn sort_ascending(v: &mut Vec<u32>)
    ensures
        final(v)@.to_multiset() == old(v)@.to_multiset(),
        sorted_by(final(v)@, ascending()),
{
    v.sort_unstable();
}

/// The sum of the samples.
pub fn sum_values(v: &Vec<u32>) -> (r: u128)
    ensures
        r == total(v@),
        r <= v.len() * 0xffff_ffff,
{
    let mut acc: u128 = 0;
    let mut i: usize = 0;
    while i < v.len()
        invariant
            i <= v.len(),
            acc == total(v@.take(i as int)),
            acc <= i * 0xffff_ffff,
        decreases v.len() - i,
    {
        assert(v@.take(i + 1).drop_last() =~= v@.take(i as int));
        acc = acc + v[i] as u128;
        i = i + 1;
    }
    assert(v@.take(v.len() as int) =~= v@);
    acc
}

/// The sum of squared distances of the samples from `center`.
fn sum_square_deviation(v: &Vec<u32>, center: u32) -> (r: u128)
    ensures
        r == square_deviation(v@, center as int),
        r <= v.len() * 0xffff_ffff_ffff_ffff,
{
    let mut acc: u128 = 0;
    let mut i: usize = 0;
    while i < v.len()
        invariant
            i <= v.len(),
            acc == square_deviation(v@.take(i as int), center as int),
            acc <= i * 0xffff_ffff_ffff_ffff,
        decreases v.len() - i,
    {
        assert(v@.take(i + 1).drop_last() =~= v@.take(i as int));
        let x = v[i];
        let d: u128 = if x >= center {
            (x - center) as u128
        } else {
            (center - x) as u128
        };
        assert(d * d == (x - center) * (x - center)) by (nonlinear_arith)
            requires
                d == x - center || d == center - x,
        ;
        assert(d * d <= 0xffff_ffff_ffff_ffff) by (nonlinear_arith)
            requires
                d <= 0xffff_ffff,
        ;
        acc = acc + d * d;
        i = i + 1;
    }
    assert(v@.take(v.len() as int) =~= v@);
    acc
}

/// The integer square root of `v`.
pub fn integer_sqrt(v: u64) -> (r: u32)
    ensures
        is_root(r as nat, v as nat),
        r == isqrt(v as nat),
{
    let mut lo: u64 = 0;
    let mut hi: u64 = 0x1_0000_0000;
    assert(v < hi * hi);
    while hi - lo > 1
        invariant
            lo < hi <= 0x1_0000_0000,
            lo * lo <= v,
            v < hi * hi,
        decreases hi - lo,
    {
        let mid: u64 = lo + (hi - lo) / 2;
        assert(mid * mid <= 0xffff_ffff_ffff_ffff) by (nonlinear_arith)
            requires
                mid < 0x1_0000_0000,
        ;
        if mid * mid <= v {
            lo = mid;
        } else {
            hi = mid;
        }
    }
    proof {
        lemma_isqrt_unique(lo as nat, v as nat);
    }
    lo as u32
}

/// Bounds the quotient of a sum of `n` terms, each at most `m`, by `m`.
proof fn lemma_quotient_bound(s: nat, n: nat, m: nat)
    requires
        n > 0,
        s <= n * m,
    ensures
        s / n <= m,
{
    lemma_div_is_ordered(s as int, (n * m) as int, n as int);
    lemma_div_multiples_vanish(m as int, n as int);
}

/// The statistics of a series, oldest sample first.
pub fn summarize(values: &Vec<u32>) -> (r: StatsSummary)
    ensures
        r == summary_of(values@),
{
    let n = values.len();
    if n == 0 {
        return StatsSummary {
            current: 0,
            average: 0,
            min: 0,
            max: 0,
            median: 0,
            std_deviation: 0,
            sample_count: 0,
        };
    }
    let sum = sum_values(values);
    proof {
        lemma_quotient_bound(sum as nat, n as nat, 0xffff_ffff);
    }
    let average = (sum / n as u128) as u32;
    let mut sorted = values.clone();
    assert(sorted@ =~= values@);
    sort_ascending(&mut sorted);
    proof {
        lemma_ascending_total();
        values@.lemma_sort_by_ensures(ascending());
        lemma_sorted_unique(sorted@, sorted_values(values@), ascending());
        sorted@.to_multiset_ensures();
        values@.to_multiset_ensures();
        assert(sorted@.to_multiset().len() == values@.to_multiset().len());
    }
    let min = sorted[0];
    let max = sorted[n - 1];
    let median: u32 = if n % 2 == 0 {
        ((sorted[n / 2 - 1] as u64 + sorted[n / 2] as u64) / 2) as u32
    } else {
        sorted[n / 2]
    };
    let deviation = sum_square_deviation(values, average);
    proof {
        lemma_quotient_bound(deviation as nat, n as nat, 0xffff_ffff_ffff_ffff);
    }
    let var = (deviation / n as u128) as u64;
    let std_deviation = integer_sqrt(var);
    StatsSummary {
        current: values[n - 1],
        average,
        min,
        max,
        median,
        std_deviation,
        sample_count: n,
    }
}

} // verus!
