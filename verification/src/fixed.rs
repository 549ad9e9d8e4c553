//! The fixed-point number representation used throughout the crate.
//!
//! A value `v: i64` stands for the real number `v / SCALE`. Sums of
//! fixed-point values are ordinary integer sums; a product of two
//! fixed-point values must be divided by `SCALE` once to stay at the same
//! scale, which [`mul_div`] does exactly (truncating toward zero).

use vstd::prelude::*;

verus! {

use vstd::arithmetic::div_mod::{
    lemma_div_by_multiple,
    lemma_div_is_ordered,
    lemma_div_is_ordered_by_denominator,
    lemma_div_nonincreasing,
    lemma_div_pos_is_pos,
};
use vstd::arithmetic::mul::{
    lemma_mul_inequality,
    lemma_mul_is_commutative,
    lemma_mul_nonnegative,
};

/// The fixed-point scale: an `i64` value `v` stands for the real `v / SCALE`.
pub const SCALE: i64 = 1_000_000_000;

/// Largest magnitude a well-formed fixed-point value may have
/// (one million, in real terms). Keeping every stored value within this
/// bound is what makes all intermediate products of the forward pass fit
/// comfortably in 128-bit accumulators.
pub const VMAX: i64 = 1_000_000_000_000_000;

/// Largest number of entries a sample, weight row, or batch may have.
pub const NMAX: usize = 100_000;

/// Truncating (round-toward-zero) division on mathematical integers, the
/// convention shared by Rust's `/` on signed integers. Meaningful for
/// positive divisors.
pub open spec fn sdiv(a: int, b: int) -> int {
    if a >= 0 {
        a / b
    } else {
        -((-a) / b)
    }
}

/// On a nonnegative numerator, truncating division is Euclidean division:
/// nonnegative and no larger than the numerator.
pub proof fn lemma_sdiv_nonneg(a: int, b: int)
    requires
        0 <= a,
        0 < b,
    ensures
        sdiv(a, b) == a / b,
        0 <= sdiv(a, b) <= a,
{
    lemma_div_pos_is_pos(a, b);
    lemma_div_nonincreasing(a, b);
}

/// Multiplying `a >= 0` by a factor of at most `s` and dividing by at
/// least `s` cannot grow `a`.
pub proof fn lemma_sdiv_mul_le(a: int, t: int, s: int, d: int)
    requires
        0 <= a,
        0 <= t <= s,
        0 < s <= d,
    ensures
        0 <= sdiv(a * t, d) <= a,
{
    lemma_mul_nonnegative(a, t);
    lemma_mul_nonnegative(a, s);
    lemma_sdiv_nonneg(a * t, d);
    lemma_mul_is_commutative(a, t);
    lemma_mul_is_commutative(a, s);
    lemma_mul_inequality(t, s, a);
    lemma_div_is_ordered(a * t, a * s, d);
    lemma_div_is_ordered_by_denominator(a * s, s, d);
    lemma_div_by_multiple(a, s);
}

/// An inner product against nonnegative weights `l` lies between the
/// smallest and largest factor, each scaled by the weight sum.
pub proof fn lemma_dot_range_weighted(c: Seq<i64>, l: Seq<i64>, lo: int, hi: int)
    requires
        c.len() == l.len(),
        forall|i: int| 0 <= i < c.len() ==> lo <= #[trigger] c[i] <= hi,
        forall|i: int| 0 <= i < l.len() ==> 0 <= #[trigger] l[i],
    ensures
        lo * seq_sum(l) <= dot(c, l) <= hi * seq_sum(l),
    decreases c.len(),
{
    if c.len() == 0 {
        assert(lo * seq_sum(l) == 0) by (nonlinear_arith)
            requires
                seq_sum(l) == 0,
        ;
        assert(hi * seq_sum(l) == 0) by (nonlinear_arith)
            requires
                seq_sum(l) == 0,
        ;
    } else {
        let n = c.len() as int;
        let cp = c.drop_last();
        let lp = l.drop_last();
        assert forall|i: int| 0 <= i < cp.len() implies lo <= #[trigger] cp[i] <= hi by {
            assert(cp[i] == c[i]);
        }
        assert forall|i: int| 0 <= i < lp.len() implies 0 <= #[trigger] lp[i] by {
            assert(lp[i] == l[i]);
        }
        lemma_dot_range_weighted(cp, lp, lo, hi);
        assert(c.last() == c[n - 1]);
        assert(l.last() == l[n - 1]);
        assert(dot(c, l) == dot(cp, lp) + c.last() * l.last());
        assert(seq_sum(l) == seq_sum(lp) + l.last());
        assert(lo * (seq_sum(lp) + l.last()) <= dot(cp, lp) + c.last() * l.last() <= hi * (
        seq_sum(lp) + l.last())) by (nonlinear_arith)
            requires
                lo * seq_sum(lp) <= dot(cp, lp) <= hi * seq_sum(lp),
                lo <= c.last() <= hi,
                0 <= l.last(),
        ;
    }
}

/// Every entry of the sequence is a well-formed fixed-point value.
pub open spec fn bounded(s: Seq<i64>) -> bool {
    forall|i: int| 0 <= i < s.len() ==> -VMAX <= #[trigger] s[i] <= VMAX
}

/// The sum of a row of fixed-point values, as a mathematical integer.
pub open spec fn seq_sum(s: Seq<i64>) -> int
    decreases s.len(),
{
    if s.len() == 0 {
        0
    } else {
        seq_sum(s.drop_last()) + s.last()
    }
}

/// A sum of nonnegative values is nonnegative.
pub proof fn lemma_seq_sum_nonneg(s: Seq<i64>)
    requires
        forall|i: int| 0 <= i < s.len() ==> #[trigger] s[i] >= 0,
    ensures
        seq_sum(s) >= 0,
    decreases s.len(),
{
    if s.len() > 0 {
        let sp = s.drop_last();
        assert forall|i: int| 0 <= i < sp.len() implies #[trigger] sp[i] >= 0 by {
            assert(sp[i] == s[i]);
        }
        lemma_seq_sum_nonneg(sp);
        assert(s.last() == s[s.len() - 1]);
    }
}

/// A sum of nonnegative values is at least any one of them.
pub proof fn lemma_seq_sum_ge_elem(s: Seq<i64>, k: int)
    requires
        forall|i: int| 0 <= i < s.len() ==> #[trigger] s[i] >= 0,
        0 <= k < s.len(),
    ensures
        seq_sum(s) >= s[k],
    decreases s.len(),
{
    let sp = s.drop_last();
    assert forall|i: int| 0 <= i < sp.len() implies #[trigger] sp[i] >= 0 by {
        assert(sp[i] == s[i]);
    }
    if k == s.len() - 1 {
        lemma_seq_sum_nonneg(sp);
        assert(s.last() == s[k]);
    } else {
        lemma_seq_sum_ge_elem(sp, k);
        assert(sp[k] == s[k]);
        assert(s.last() == s[s.len() - 1]);
    }
}

/// Summing the truncated quotients `(e[i] * SCALE) / d` loses less than one
/// unit per entry against the exact quotient of the scaled sum.
pub proof fn lemma_floor_sum(e: Seq<i64>, d: int, out: Seq<i64>)
    requires
        d > 0,
        e.len() == out.len(),
        forall|i: int| 0 <= i < e.len() ==> #[trigger] e[i] >= 0,
        forall|i: int|
            0 <= i < out.len() ==> #[trigger] out[i] == sdiv(e[i] * (SCALE as int), d),
    ensures
        d * seq_sum(out) <= seq_sum(e) * (SCALE as int) <= d * seq_sum(out) + d * e.len(),
    decreases e.len(),
{
    if e.len() == 0 {
        assert(seq_sum(e) * (SCALE as int) == 0) by (nonlinear_arith)
            requires
                seq_sum(e) == 0,
        ;
    } else {
        let ep = e.drop_last();
        let outp = out.drop_last();
        let n = e.len() as int;
        assert forall|i: int| 0 <= i < ep.len() implies #[trigger] ep[i] >= 0 by {
            assert(ep[i] == e[i]);
        }
        assert forall|i: int|
            0 <= i < outp.len() implies #[trigger] outp[i] == sdiv(ep[i] * (SCALE as int), d) by {
            assert(outp[i] == out[i]);
            assert(ep[i] == e[i]);
        }
        lemma_floor_sum(ep, d, outp);
        let v = e.last() as int;
        let q = out.last() as int;
        assert(e.last() == e[n - 1]);
        assert(out.last() == out[n - 1]);
        lemma_mul_nonnegative(v, SCALE as int);
        lemma_sdiv_nonneg(v * (SCALE as int), d);
        vstd::arithmetic::div_mod::lemma_fundamental_div_mod(v * (SCALE as int), d);
        vstd::arithmetic::div_mod::lemma_mod_division_less_than_divisor(v * (SCALE as int), d);
        let r = (v * (SCALE as int)) % d;
        assert(v * (SCALE as int) == d * q + r);
        assert((seq_sum(ep) + v) * (SCALE as int) == seq_sum(ep) * (SCALE as int) + v * (
        SCALE as int)) by (nonlinear_arith);
        assert(d * (seq_sum(outp) + q) == d * seq_sum(outp) + d * q) by (nonlinear_arith);
        assert(d * ((n - 1) + 1) == d * (n - 1) + d) by (nonlinear_arith);
        assert(ep.len() as int == n - 1);
    }
}

/// The (unscaled) inner product of two equally long rows: a sum of raw
/// products, so at scale `SCALE * SCALE` when both rows are fixed-point.
pub open spec fn dot(x: Seq<i64>, w: Seq<i64>) -> int
    decreases x.len(),
{
    if x.len() == 0 || w.len() == 0 {
        0
    } else {
        dot(x.drop_last(), w.drop_last()) + x.last() * w.last()
    }
}

/// An inner product of rows whose entries are bounded by `m1` and `m2` is
/// itself bounded by the row length times `m1 * m2`.
pub proof fn lemma_dot_bound(x: Seq<i64>, w: Seq<i64>, m1: int, m2: int)
    requires
        x.len() == w.len(),
        0 <= m1,
        0 <= m2,
        forall|i: int| 0 <= i < x.len() ==> -m1 <= #[trigger] x[i] <= m1,
        forall|i: int| 0 <= i < w.len() ==> -m2 <= #[trigger] w[i] <= m2,
    ensures
        -(x.len() as int) * m1 * m2 <= dot(x, w) <= (x.len() as int) * m1 * m2,
    decreases x.len(),
{
    if x.len() == 0 {
    } else {
        let n = x.len() as int;
        let xs = x.drop_last();
        let ws = w.drop_last();
        assert forall|i: int| 0 <= i < xs.len() implies -m1 <= #[trigger] xs[i] <= m1 by {
            assert(xs[i] == x[i]);
        }
        assert forall|i: int| 0 <= i < ws.len() implies -m2 <= #[trigger] ws[i] <= m2 by {
            assert(ws[i] == w[i]);
        }
        lemma_dot_bound(xs, ws, m1, m2);
        assert(dot(x, w) == dot(xs, ws) + x.last() * w.last());
        assert(-m1 <= x[n - 1] <= m1);
        assert(-m2 <= w[n - 1] <= m2);
        assert(xs.len() as int == n - 1);
        assert(-(n - 1) * m1 * m2 <= dot(xs, ws) <= (n - 1) * m1 * m2);
        assert(-n * m1 * m2 <= dot(x, w) <= n * m1 * m2) by (nonlinear_arith)
            requires
                n >= 1,
                dot(x, w) == dot(xs, ws) + x.last() * w.last(),
                -(n - 1) * m1 * m2 <= dot(xs, ws) <= (n - 1) * m1 * m2,
                -m1 <= x.last() <= m1,
                -m2 <= w.last() <= m2,
                0 <= m1,
                0 <= m2,
        ;
        assert(-(x.len() as int) * m1 * m2 == -n * m1 * m2);
        assert((x.len() as int) * m1 * m2 == n * m1 * m2);
    }
}

/// Multiplies two fixed-point values and divides by `d`, truncating toward
/// zero, all without intermediate overflow.
pub fn mul_div(a: i64, b: i64, d: i64) -> (r: i64)
    requires
        d > 0,
        i64::MIN <= sdiv(a as int * b as int, d as int) <= i64::MAX,
    ensures
        r == sdiv(a as int * b as int, d as int),
{
    proof {
        assert(i128::MIN < (a as int) * (b as int) < i128::MAX) by (nonlinear_arith)
            requires
                i64::MIN <= a <= i64::MAX,
                i64::MIN <= b <= i64::MAX,
        ;
    }
    let p: i128 = (a as i128) * (b as i128);
    let q: i128 = p / (d as i128);
    q as i64
}

} // verus!
