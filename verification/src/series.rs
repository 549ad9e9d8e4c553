//! The fixed-point exponential, computed by a truncated power series on a
//! small interval and by repeated squaring below it.
//!
//! `fp_exp(x)` approximates `SCALE * exp(x / SCALE)` for `x <= 0`. Its
//! value is pinned down exactly by the recurrences below, so it is a pure
//! function of its argument; it always lies in `[0, SCALE]` and equals
//! `SCALE` exactly at zero.

use vstd::prelude::*;

use crate::fixed::{lemma_sdiv_mul_le, lemma_sdiv_nonneg, mul_div, sdiv, SCALE};

verus! {

use vstd::arithmetic::div_mod::lemma_div_is_strictly_smaller;
use vstd::arithmetic::power2::{lemma2_to64, lemma_pow2_unfold, pow2};

/// One eighth in fixed point: the widest interval the power series is
/// applied to; anything smaller is first halved.
pub const EIGHTH: i64 = 125_000_000;

/// Term `j` of the power series of `exp(t / SCALE)`, in fixed point:
/// `t^j / j!`, each step truncating once.
pub open spec fn exp_term(t: int, j: nat) -> int
    decreases j,
{
    if j == 0 {
        SCALE as int
    } else {
        sdiv(exp_term(t, (j - 1) as nat) * t, (SCALE as int) * j)
    }
}

/// The alternating sum of the first `j` power-series terms: the series
/// value of `exp(-t / SCALE)`.
pub open spec fn exp_taylor(t: int, j: nat) -> int
    decreases j,
{
    if j == 0 {
        0
    } else {
        exp_taylor(t, (j - 1) as nat) + if (j - 1) % 2 == 0 {
            exp_term(t, (j - 1) as nat)
        } else {
            -exp_term(t, (j - 1) as nat)
        }
    }
}

#[via_fn]
proof fn fp_exp_spec_decreases(x: int) {
    if x < -(EIGHTH as int) {
        lemma_div_is_strictly_smaller(-x, 2);
    }
}

/// The fixed-point exponential of a nonpositive argument: the truncated
/// power series on `[-1/8, 0]`, and the rescaled square of the exponential
/// of the (truncated) half below that.
pub open spec fn fp_exp_spec(x: int) -> int
    recommends
        x <= 0,
    decreases -x,
        when x <= 0
        via fp_exp_spec_decreases
{
    if x >= -(EIGHTH as int) {
        exp_taylor(-x, 8)
    } else {
        sdiv(fp_exp_spec(sdiv(x, 2)) * fp_exp_spec(sdiv(x, 2)), SCALE as int)
    }
}

/// The series sum of the first 8 terms for `exp(-t / SCALE)`,
/// `t` in `[0, 1/8]`.
fn exp_base(t: i64) -> (r: i64)
    requires
        0 <= t <= EIGHTH,
    ensures
        r == exp_taylor(t as int, 8),
        0 <= SCALE - t <= r <= SCALE,
        t == 0 ==> r == SCALE,
{
    let mut sum: i64 = 0;
    let mut term: i64 = SCALE;
    let mut j: usize = 0;
    while j < 8
        invariant
            0 <= j <= 8,
            0 <= t <= EIGHTH,
            term == exp_term(t as int, j as nat),
            0 <= term <= SCALE,
            sum == exp_taylor(t as int, j as nat),
            j == 0 ==> sum == 0,
            j == 1 ==> sum == SCALE && term == t,
            j >= 2 ==> SCALE - t <= sum <= SCALE,
            j >= 2 && j % 2 == 0 ==> sum + term <= SCALE,
            j >= 2 && j % 2 == 1 ==> SCALE - t <= sum - term,
            t == 0 && j >= 1 ==> sum == SCALE && term == 0,
        decreases 8 - j,
    {
        if j % 2 == 0 {
            sum = sum + term;
        } else {
            sum = sum - term;
        }
        proof {
            lemma_sdiv_mul_le(term as int, t as int, SCALE as int, (SCALE as int) * (j + 1));
            if j == 0 {
                // the first step is exact: SCALE * t / SCALE == t
                vstd::arithmetic::div_mod::lemma_div_by_multiple(t as int, SCALE as int);
                vstd::arithmetic::mul::lemma_mul_is_commutative(SCALE as int, t as int);
                lemma_sdiv_nonneg((SCALE as int) * (t as int), SCALE as int);
            }
            if t == 0 {
                vstd::arithmetic::mul::lemma_mul_basics(term as int);
                lemma_sdiv_nonneg(0, (SCALE as int) * (j + 1));
            }
        }
        term = mul_div(term, t, SCALE * ((j as i64) + 1));
        j = j + 1;
    }
    sum
}

/// One half in fixed point: the bottom of the interval the logarithm
/// series is applied to; smaller arguments are first doubled.
pub const HALF: i64 = 500_000_000;

/// The natural logarithm of two, in fixed point.
pub const LN2: i64 = 693_147_180;

/// An upper bound on every value `fp_neg_ln` can return.
pub const LN_CAP: i64 = 36_000_000_000;

#[via_fn]
proof fn norm_shifts_decreases(p: int) {
}

/// How many doublings take `p` into `[1/2, 1]`.
pub open spec fn norm_shifts(p: int) -> nat
    recommends
        1 <= p <= SCALE,
    decreases (SCALE as int) - p,
        when 1 <= p <= SCALE
        via norm_shifts_decreases
{
    if p >= HALF {
        0
    } else {
        1 + norm_shifts(2 * p)
    }
}

#[via_fn]
proof fn norm_val_decreases(p: int) {
}

/// The value those doublings take `p` to: `p * 2^norm_shifts(p)`, in
/// `[1/2, 1]`.
pub open spec fn norm_val(p: int) -> int
    recommends
        1 <= p <= SCALE,
    decreases (SCALE as int) - p,
        when 1 <= p <= SCALE
        via norm_val_decreases
{
    if p >= HALF {
        p
    } else {
        norm_val(2 * p)
    }
}

/// Term `k >= 1` of the logarithm series for `-ln(1 - u / SCALE)`:
/// `u^k`, rescaled, each step truncating once.
pub open spec fn ln_term(u: int, k: nat) -> int
    decreases k,
{
    if k <= 1 {
        u
    } else {
        sdiv(ln_term(u, (k - 1) as nat) * u, SCALE as int)
    }
}

/// The sum of the first `k` series contributions `u^j / j`.
pub open spec fn ln_series(u: int, k: nat) -> int
    decreases k,
{
    if k == 0 {
        0
    } else {
        ln_series(u, (k - 1) as nat) + sdiv(ln_term(u, k), k as int)
    }
}

/// The fixed-point negated logarithm of `p` in `(0, 1]`: the series value
/// on the normalized argument, plus one `ln 2` per doubling.
pub open spec fn fp_neg_ln_spec(p: int) -> int
    recommends
        1 <= p <= SCALE,
{
    ln_series(SCALE - norm_val(p), 30) + norm_shifts(p) * (LN2 as int)
}

/// The fixed-point exponential of a nonpositive argument. Always in
/// `[0, SCALE]`; exactly `SCALE` at zero.
pub fn fp_exp(x: i64) -> (r: i64)
    requires
        x <= 0,
    ensures
        r == fp_exp_spec(x as int),
        0 <= r <= SCALE,
        x == 0 ==> r == SCALE,
    decreases -(x as int),
{
    if x >= -EIGHTH {
        exp_base(-x)
    } else {
        proof {
            lemma_div_is_strictly_smaller(-(x as int), 2);
        }
        let h = fp_exp(x / 2);
        proof {
            lemma_sdiv_mul_le(h as int, h as int, SCALE as int, SCALE as int);
        }
        mul_div(h, h, SCALE)
    }
}

/// The negated natural logarithm of a positive fixed-point value of at
/// most one: `-ln(p / SCALE)` in fixed point. Always in `[0, LN_CAP]`;
/// exactly zero at one.
pub fn fp_neg_ln(p: i64) -> (r: i64)
    requires
        1 <= p <= SCALE,
    ensures
        r == fp_neg_ln_spec(p as int),
        0 <= r <= LN_CAP,
        p == SCALE ==> r == 0,
{
    let mut m: i64 = p;
    let mut j: u32 = 0;
    proof {
        lemma2_to64();
    }
    while m < HALF
        invariant
            1 <= m <= SCALE,
            j <= 30,
            pow2(j as nat) <= m,
            norm_shifts(p as int) == j + norm_shifts(m as int),
            norm_val(p as int) == norm_val(m as int),
        decreases SCALE - m,
    {
        proof {
            lemma2_to64();
            lemma_pow2_unfold((j + 1) as nat);
        }
        m = m * 2;
        j = j + 1;
    }
    let u = SCALE - m;
    let mut b: i64 = u;
    let mut acc: i64 = 0;
    let mut k: i64 = 1;
    while k <= 30
        invariant
            1 <= k <= 31,
            0 <= u <= HALF,
            b == ln_term(u as int, k as nat),
            0 <= b <= u,
            acc == ln_series(u as int, (k - 1) as nat),
            0 <= acc <= (k - 1) * (HALF as int),
            u == 0 ==> acc == 0,
        decreases 31 - k,
    {
        proof {
            lemma_sdiv_nonneg(b as int, k as int);
            assert((k - 1) * (HALF as int) + (HALF as int) == k * (HALF as int))
                by (nonlinear_arith);
            assert(k * (HALF as int) <= 31 * (HALF as int)) by (nonlinear_arith)
                requires
                    k <= 31,
            ;
            lemma_sdiv_mul_le(b as int, u as int, SCALE as int, SCALE as int);
        }
        acc = acc + b / k;
        b = mul_div(b, u, SCALE);
        k = k + 1;
    }
    acc + (j as i64) * LN2
}

} // verus!
