//! Ordinary least squares over `(elapsed milliseconds, sample)` pairs.
//!
//! The slope is kept exact as a fraction `num / den` (sample units per
//! millisecond). Its sums are taken in 128-bit arithmetic; a series whose
//! sums leave that range is treated like a degenerate one and has no slope.

use vstd::prelude::*;
use std::collections::VecDeque;
use vstd::arithmetic::div_mod::{lemma_fundamental_div_mod, lemma_fundamental_div_mod_converse};

verus! {

/// The largest value the regression sums may take.
pub const SUM_LIMIT: u128 = 0xffff_ffff_ffff_ffff_ffff_ffff_ffff_ffff;

/// The largest magnitude a scaled rate may take.
pub const RATE_LIMIT: u128 = 0x7fff_ffff_ffff_ffff_ffff_ffff_ffff_ffff;

/// Milliseconds per hour: trends are reported per hour.
pub const MS_PER_HOUR: u128 = 3_600_000;

/// Every point lies at or after the first one.
pub open spec fn starts_earliest(p: Seq<(u64, u32)>) -> bool {
    forall|i: int| 0 <= i < p.len() ==> p[0].0 <= #[trigger] p[i].0
}

/// Sum of elapsed times since `b`.
pub open spec fn sum_x(p: Seq<(u64, u32)>, b: int) -> int
    decreases p.len(),
{
    if p.len() == 0 {
        0
    } else {
        sum_x(p.drop_last(), b) + (p.last().0 - b)
    }
}

/// Sum of the samples.
pub open spec fn sum_y(p: Seq<(u64, u32)>) -> int
    decreases p.len(),
{
    if p.len() == 0 {
        0
    } else {
        sum_y(p.drop_last()) + p.last().1
    }
}

/// Sum of elapsed time times sample.
pub open spec fn sum_xy(p: Seq<(u64, u32)>, b: int) -> int
    decreases p.len(),
{
    if p.len() == 0 {
        0
    } else {
        sum_xy(p.drop_last(), b) + (p.last().0 - b) * p.last().1
    }
}

/// Sum of squared elapsed times.
pub open spec fn sum_xx(p: Seq<(u64, u32)>, b: int) -> int
    decreases p.len(),
{
    if p.len() == 0 {
        0
    } else {
        sum_xx(p.drop_last(), b) + (p.last().0 - b) * (p.last().0 - b)
    }
}

/// The regression's sums and products stay within 128-bit range.
pub open spec fn sums_fit(p: Seq<(u64, u32)>) -> bool {
    let b = p[0].0 as int;
    let n = p.len() as int;
    &&& sum_x(p, b) <= SUM_LIMIT
    &&& sum_y(p) <= SUM_LIMIT
    &&& sum_xy(p, b) <= SUM_LIMIT
    &&& sum_xx(p, b) <= SUM_LIMIT
    &&& n * sum_xy(p, b) <= SUM_LIMIT
    &&& sum_x(p, b) * sum_y(p) <= SUM_LIMIT
    &&& n * sum_xx(p, b) <= SUM_LIMIT
    &&& sum_x(p, b) * sum_x(p, b) <= SUM_LIMIT
}

/// The least-squares slope as `(numerator, denominator)`, when there is one:
/// at least two points, sums in range, and a positive denominator.
pub open spec fn slope(p: Seq<(u64, u32)>) -> Option<(int, int)> {
    if p.len() < 2 || !sums_fit(p) {
        None
    } else {
        let b = p[0].0 as int;
        let n = p.len() as int;
        let num = n * sum_xy(p, b) - sum_x(p, b) * sum_y(p);
        let den = n * sum_xx(p, b) - sum_x(p, b) * sum_x(p, b);
        if den <= 0 {
            None
        } else {
            Some((num, den))
        }
    }
}

pub open spec fn abs(x: int) -> int {
    if x < 0 {
        -x
    } else {
        x
    }
}

/// `num * factor / den` rounded down, or zero where its magnitude leaves range.
pub open spec fn scaled(num: int, den: int, factor: int) -> int {
    if abs(num) * factor <= RATE_LIMIT {
        num * factor / den
    } else {
        0
    }
}

/// The change the slope predicts over `factor` milliseconds, rounded down;
/// zero without a slope.
pub open spec fn rate(p: Seq<(u64, u32)>, factor: int) -> int {
    match slope(p) {
        Some(f) => scaled(f.0, f.1, factor),
        None => 0,
    }
}

proof fn lemma_prefix_sums_bounded(p: Seq<(u64, u32)>, i: int, b: int)
    requires
        0 <= i <= p.len(),
        forall|j: int| 0 <= j < p.len() ==> b <= #[trigger] p[j].0,
    ensures
        0 <= sum_x(p.take(i), b) <= sum_x(p, b),
        0 <= sum_y(p.take(i)) <= sum_y(p),
        0 <= sum_xy(p.take(i), b) <= sum_xy(p, b),
        0 <= sum_xx(p.take(i), b) <= sum_xx(p, b),
    decreases p.len(),
{
    if i == p.len() {
        assert(p.take(i) =~= p);
        lemma_sums_nonneg(p, b);
    } else {
        let w = p.drop_last();
        assert(p.take(i) =~= w.take(i));
        assert forall|j: int| 0 <= j < w.len() implies b <= #[trigger] w[j].0 by {
            assert(w[j] == p[j]);
        }
        lemma_prefix_sums_bounded(w, i, b);
        let l = p.last();
        assert(p[p.len() - 1] == l);
        assert((l.0 - b) * l.1 >= 0) by (nonlinear_arith)
            requires
                l.0 - b >= 0,
                l.1 >= 0,
        ;
        assert((l.0 - b) * (l.0 - b) >= 0) by (nonlinear_arith);
    }
}

proof fn lemma_sums_nonneg(p: Seq<(u64, u32)>, b: int)
    requires
        forall|j: int| 0 <= j < p.len() ==> b <= #[trigger] p[j].0,
    ensures
        0 <= sum_x(p, b),
        0 <= sum_y(p),
        0 <= sum_xy(p, b),
        0 <= sum_xx(p, b),
    decreases p.len(),
{
    if p.len() > 0 {
        let w = p.drop_last();
        assert forall|j: int| 0 <= j < w.len() implies b <= #[trigger] w[j].0 by {
            assert(w[j] == p[j]);
        }
        lemma_sums_nonneg(w, b);
        let l = p.last();
        assert(p[p.len() - 1] == l);
        assert((l.0 - b) * l.1 >= 0) by (nonlinear_arith)
            requires
                l.0 - b >= 0,
                l.1 >= 0,
        ;
        assert((l.0 - b) * (l.0 - b) >= 0) by (nonlinear_arith);
    }
}

/// The four regression sums, when each stays within range.
fn regression_sums(p: &VecDeque<(u64, u32)>) -> (r: Option<(u128, u128, u128, u128)>)
    requires
        p@.len() > 0,
        starts_earliest(p@),
    ensures
        match r {
            Some(s) => {
                let b = p@[0].0 as int;
                &&& s.0 == sum_x(p@, b)
                &&& s.1 == sum_y(p@)
                &&& s.2 == sum_xy(p@, b)
                &&& s.3 == sum_xx(p@, b)
            },
            None => {
                let b = p@[0].0 as int;
                sum_x(p@, b) > SUM_LIMIT || sum_y(p@) > SUM_LIMIT || sum_xy(p@, b) > SUM_LIMIT
                    || sum_xx(p@, b) > SUM_LIMIT
            },
        },
{
    let base = p[0].0;
    let ghost b = base as int;
    let mut sx: u128 = 0;
    let mut sy: u128 = 0;
    let mut sxy: u128 = 0;
    let mut sxx: u128 = 0;
    let mut i: usize = 0;
    while i < p.len()
        invariant
            p@.len() > 0,
            starts_earliest(p@),
            base == p@[0].0,
            b == base as int,
            i <= p@.len(),
            sx == sum_x(p@.take(i as int), b),
            sy == sum_y(p@.take(i as int)),
            sxy == sum_xy(p@.take(i as int), b),
            sxx == sum_xx(p@.take(i as int), b),
        decreases p@.len() - i,
    {
        proof {
            assert(p@.take(i + 1).drop_last() =~= p@.take(i as int));
            assert(p@.take(i + 1).last() == p@[i as int]);
            lemma_prefix_sums_bounded(p@, i + 1, b);
        }
        let (t, v) = p[i];
        let x: u128 = (t - base) as u128;
        let y: u128 = v as u128;
        assert(x * y <= 0xffff_ffff_ffff_ffff_ffff_ffff) by (nonlinear_arith)
            requires
                x <= 0xffff_ffff_ffff_ffff,
                y <= 0xffff_ffff,
        ;
        assert(x * x <= 0xffff_ffff_ffff_fffe_0000_0000_0000_0001) by (nonlinear_arith)
            requires
                x <= 0xffff_ffff_ffff_ffff,
        ;
        let xy = x * y;
        let xx = x * x;
        if sx > SUM_LIMIT - x || sy > SUM_LIMIT - y || sxy > SUM_LIMIT - xy || sxx > SUM_LIMIT
            - xx {
            return None;
        }
        sx = sx + x;
        sy = sy + y;
        sxy = sxy + xy;
        sxx = sxx + xx;
        i = i + 1;
    }
    assert(p@.take(p@.len() as int) =~= p@);
    Some((sx, sy, sxy, sxx))
}

/// The least-squares slope of the series as `(negative, |num|, den)`.
pub fn regression_slope(p: &VecDeque<(u64, u32)>) -> (r: Option<(bool, u128, u128)>)
    requires
        starts_earliest(p@),
    ensures
        match r {
            Some(f) => f.2 > 0 && slope(p@) == Some((if f.0 { -f.1 } else { f.1 as int }, f.2 as int)),
            None => slope(p@) is None,
        },
{
    let n = p.len();
    if n < 2 {
        return None;
    }
    let sums = regression_sums(p);
    let (sx, sy, sxy, sxx) = match sums {
        Some(s) => s,
        None => {
            return None;
        },
    };
    let nn = n as u128;
    proof {
        lemma_product_fits(nn as int, sxy as int);
        lemma_product_fits(sx as int, sy as int);
        lemma_product_fits(nn as int, sxx as int);
        lemma_product_fits(sx as int, sx as int);
    }
    if sxy > 0 && nn > SUM_LIMIT / sxy {
        return None;
    }
    if sy > 0 && sx > SUM_LIMIT / sy {
        return None;
    }
    if sxx > 0 && nn > SUM_LIMIT / sxx {
        return None;
    }
    if sx > 0 && sx > SUM_LIMIT / sx {
        return None;
    }
    let a = nn * sxy;
    let c = sx * sy;
    let d = nn * sxx;
    let e = sx * sx;
    if d <= e {
        return None;
    }
    if a >= c {
        Some((false, a - c, d - e))
    } else {
        Some((true, c - a, d - e))
    }
}

/// A product is within range exactly when the division test says so.
proof fn lemma_product_fits(a: int, b: int)
    requires
        0 <= a <= SUM_LIMIT,
        0 <= b <= SUM_LIMIT,
    ensures
        (b > 0 && a > (SUM_LIMIT as int) / b) <==> a * b > SUM_LIMIT,
{
    lemma_product_within(a, b, SUM_LIMIT as int);
}

/// A product stays within `lim` exactly when the division test says so.
proof fn lemma_product_within(a: int, b: int, lim: int)
    requires
        0 <= a,
        0 <= b,
        0 <= lim,
    ensures
        (b > 0 && a > lim / b) <==> a * b > lim,
{
    if b > 0 {
        let q = lim / b;
        lemma_fundamental_div_mod(lim, b);
        assert(lim == b * q + lim % b);
        assert(q * b == b * q) by (nonlinear_arith);
        if a > q {
            assert(a * b >= (q + 1) * b) by (nonlinear_arith)
                requires
                    a >= q + 1,
                    b > 0,
            ;
            assert((q + 1) * b == q * b + b) by (nonlinear_arith);
        } else {
            assert(a * b <= q * b) by (nonlinear_arith)
                requires
                    a <= q,
                    b > 0,
            ;
        }
    } else {
        assert(a * b == 0) by (nonlinear_arith)
            requires
                b == 0,
        ;
    }
}

/// `(±mag) * factor / den` rounded down, or zero where `mag * factor`
/// leaves the range of the result.
pub fn scaled_rate(negative: bool, mag: u128, den: u128, factor: u128) -> (r: i128)
    requires
        den > 0,
    ensures
        r == scaled(if negative { -mag } else { mag as int }, den as int, factor as int),
{
    let ghost num: int = if negative { -mag } else { mag as int };
    proof {
        lemma_product_within(mag as int, factor as int, RATE_LIMIT as int);
        assert(abs(num) == mag);
    }
    if factor > 0 && mag > RATE_LIMIT / factor {
        return 0;
    }
    let prod = mag * factor;
    let q = prod / den;
    let rem = prod % den;
    proof {
        lemma_fundamental_div_mod(prod as int, den as int);
        assert(q <= prod) by (nonlinear_arith)
            requires
                prod == den * q + rem,
                den > 0,
                rem >= 0,
                q >= 0,
        ;
    }
    if !negative {
        q as i128
    } else {
        proof {
            assert(num * factor == -(prod as int)) by (nonlinear_arith)
                requires
                    num == -mag,
                    prod == mag * factor,
            ;
        }
        if rem == 0 {
            proof {
                assert(-(prod as int) == (-(q as int)) * den + 0) by (nonlinear_arith)
                    requires
                        prod == den * q + rem,
                        rem == 0,
                ;
                lemma_fundamental_div_mod_converse(-(prod as int), den as int, -(q as int), 0);
            }
            -(q as i128)
        } else {
            proof {
                assert(-(prod as int) == (-(q as int) - 1) * den + (den - rem)) by (nonlinear_arith)
                    requires
                        prod == den * q + rem,
                ;
                lemma_fundamental_div_mod_converse(
                    -(prod as int),
                    den as int,
                    -(q as int) - 1,
                    den - rem,
                );
            }
            -(q as i128) - 1
        }
    }
}

/// The change that the series' slope predicts over `factor` milliseconds,
/// rounded down; zero where the series has no slope.
pub fn linear_rate(p: &VecDeque<(u64, u32)>, factor: u128) -> (r: i128)
    requires
        starts_earliest(p@),
    ensures
        r == rate(p@, factor as int),
{
    match regression_slope(p) {
        Some((negative, mag, den)) => scaled_rate(negative, mag, den, factor),
        None => 0,
    }
}

/// `x` clamped to `[0, hi]`.
pub open spec fn clamp_to(x: int, hi: int) -> int {
    if x < 0 {
        0
    } else if x > hi {
        hi
    } else {
        x
    }
}

/// `current + delta`, clamped to `[0, hi]`.
pub fn project(current: u32, delta: i128, hi: u32) -> (r: u32)
    ensures
        r == clamp_to(current + delta, hi as int),
{
    let c = current as i128;
    if delta >= hi as i128 - c {
        hi
    } else if delta <= -c {
        0
    } else {
        (c + delta) as u32
    }
}

} // verus!
