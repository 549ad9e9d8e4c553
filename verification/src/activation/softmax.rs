//! The softmax activation: per row, every entry is exponentiated and the
//! row is normalized so that it sums to one.
//!
//! Before exponentiating, the row maximum is subtracted from every entry.
//! With real numbers that leaves the softmax unchanged; here it is what
//! keeps every exponential argument nonpositive, so no exponential ever
//! leaves `[0, SCALE]` — the fixed-point counterpart of the overflow that
//! the subtraction prevents with floating-point numbers, where omitting it
//! would be an incorrect implementation.

use rayon::iter::{IntoParallelRefIterator, ParallelIterator};
use vstd::prelude::*;

use crate::fixed::{
    bounded, lemma_floor_sum, lemma_sdiv_mul_le, lemma_seq_sum_ge_elem, mul_div, sdiv, seq_sum,
    NMAX, SCALE, VMAX,
};
use crate::series::{fp_exp, fp_exp_spec};

verus! {

use vstd::arithmetic::mul::{lemma_mul_inequality_converse, lemma_mul_is_commutative};

/// A more complex activation function. Puts every value of a row on a curve
/// between 0 and 1; the row sums to one (up to one truncation per entry).
pub struct Softmax;

/// The largest entry of a non-empty row.
pub open spec fn row_max(s: Seq<i64>) -> i64
    recommends
        s.len() > 0,
    decreases s.len(),
{
    if s.len() <= 1 {
        if s.len() == 1 {
            s[0]
        } else {
            0i64
        }
    } else {
        let m = row_max(s.drop_last());
        if s.last() > m {
            s.last()
        } else {
            m
        }
    }
}

/// The stabilized exponentials of a row: every entry is shifted down by the
/// row maximum and exponentiated, so every value is in `[0, SCALE]`.
pub open spec fn exps_row(s: Seq<i64>) -> Seq<i64> {
    Seq::new(s.len(), |i: int| fp_exp_spec(s[i] - row_max(s)) as i64)
}

/// The softmax of a non-empty row: its stabilized exponentials, each
/// normalized by their sum.
pub open spec fn softmax_row(s: Seq<i64>) -> Seq<i64> {
    Seq::new(
        s.len(),
        |i: int| sdiv(exps_row(s)[i] * (SCALE as int), seq_sum(exps_row(s))) as i64,
    )
}

/// The softmax is a pure function of the sample: any two rows that meet
/// `forward_sample`'s contract on the same sample are identical, so
/// repeated calls return identical output.
pub proof fn lemma_softmax_deterministic(s: Seq<i64>, r1: Seq<i64>, r2: Seq<i64>)
    requires
        r1 == softmax_row(s),
        r2 == softmax_row(s),
    ensures
        r1 == r2,
{
}

impl Softmax {
    /// The softmax of one non-empty sample. Every output entry is in
    /// `[0, SCALE]` and the output sums to `SCALE` up to one truncated
    /// unit per entry — within `1e-8` of one for rows of up to ten values.
    pub fn forward_sample(&self, sample: &Vec<i64>) -> (r: Vec<i64>)
        requires
            1 <= sample@.len() <= NMAX,
            bounded(sample@),
        ensures
            r@ == softmax_row(sample@),
            r@.len() == sample@.len(),
            forall|i: int| 0 <= i < r@.len() ==> 0 <= #[trigger] r@[i] <= SCALE,
            SCALE - sample@.len() <= seq_sum(r@) <= SCALE,
    {
        let n = sample.len();

        // The row maximum and one index attaining it.
        let mut m: i64 = sample[0];
        let mut mi: usize = 0;
        let mut i: usize = 1;
        while i < n
            invariant
                1 <= i <= n,
                n == sample@.len(),
                mi < i,
                sample@[mi as int] == m,
                m == row_max(sample@.take(i as int)),
                forall|k: int| 0 <= k < i ==> #[trigger] sample@[k] <= m,
            decreases n - i,
        {
            if sample[i] > m {
                m = sample[i];
                mi = i;
            }
            proof {
                assert(sample@.take(i + 1).drop_last() =~= sample@.take(i as int));
            }
            i = i + 1;
        }
        proof {
            assert(sample@.take(n as int) =~= sample@);
        }

        // The stabilized exponentials; the maximum entry maps to SCALE.
        let mut e: Vec<i64> = Vec::new();
        let mut i: usize = 0;
        while i < n
            invariant
                0 <= i <= n,
                n == sample@.len(),
                n <= NMAX,
                bounded(sample@),
                mi < n,
                sample@[mi as int] == m,
                m == row_max(sample@),
                forall|k: int| 0 <= k < n ==> #[trigger] sample@[k] <= m,
                e@.len() == i,
                forall|k: int| 0 <= k < i ==> #[trigger] e@[k] == exps_row(sample@)[k],
                forall|k: int| 0 <= k < i ==> 0 <= #[trigger] e@[k] <= SCALE,
                i > mi ==> e@[mi as int] == SCALE,
            decreases n - i,
        {
            let d = sample[i] - m;
            let ev = fp_exp(d);
            proof {
                assert(exps_row(sample@)[i as int] == ev);
            }
            e.push(ev);
            i = i + 1;
        }
        proof {
            assert(e@ =~= exps_row(sample@));
        }

        // The sum of the exponentials; at least SCALE, by the maximum entry.
        let mut s: i64 = 0;
        let mut i: usize = 0;
        while i < n
            invariant
                0 <= i <= n,
                n == e@.len(),
                n <= NMAX,
                forall|k: int| 0 <= k < n ==> 0 <= #[trigger] e@[k] <= SCALE,
                s == seq_sum(e@.take(i as int)),
                0 <= s <= (i as int) * (SCALE as int),
            decreases n - i,
        {
            proof {
                assert(e@.take(i + 1).drop_last() =~= e@.take(i as int));
                assert((i as int) * (SCALE as int) + (SCALE as int) == ((i + 1) as int) * (
                SCALE as int)) by (nonlinear_arith);
                assert(((i + 1) as int) * (SCALE as int) <= (NMAX as int) * (SCALE as int))
                    by (nonlinear_arith)
                    requires
                        i + 1 <= NMAX,
                ;
            }
            s = s + e[i];
            i = i + 1;
        }
        proof {
            assert(e@.take(n as int) =~= e@);
            lemma_seq_sum_ge_elem(e@, mi as int);
            assert(s >= SCALE);
        }

        // Normalization: each exponential against the sum.
        let mut out: Vec<i64> = Vec::new();
        let mut i: usize = 0;
        while i < n
            invariant
                0 <= i <= n,
                n == e@.len(),
                n == sample@.len(),
                n <= NMAX,
                e@ == exps_row(sample@),
                forall|k: int| 0 <= k < n ==> 0 <= #[trigger] e@[k] <= SCALE,
                s == seq_sum(e@),
                s >= SCALE,
                out@.len() == i,
                forall|k: int| 0 <= k < i ==> #[trigger] out@[k] == softmax_row(sample@)[k],
                forall|k: int| 0 <= k < i ==> 0 <= #[trigger] out@[k] <= SCALE,
                forall|k: int| 0 <= k < i ==> #[trigger] out@[k] == sdiv(
                    e@[k] * (SCALE as int),
                    s as int,
                ),
            decreases n - i,
        {
            proof {
                lemma_seq_sum_ge_elem(e@, i as int);
                lemma_mul_is_commutative(SCALE as int, e@[i as int] as int);
                lemma_sdiv_mul_le(SCALE as int, e@[i as int] as int, s as int, s as int);
            }
            let q = mul_div(e[i], SCALE, s);
            proof {
                assert(softmax_row(sample@)[i as int] == q);
            }
            out.push(q);
            i = i + 1;
        }

        // The row sum stays within one truncated unit per entry of SCALE.
        proof {
            lemma_floor_sum(e@, s as int, out@);
            let qsum = seq_sum(out@);
            lemma_mul_is_commutative(s as int, qsum);
            lemma_mul_is_commutative(s as int, SCALE as int);
            lemma_mul_inequality_converse(qsum, SCALE as int, s as int);
            assert((s as int) * (qsum + n) == (s as int) * qsum + (s as int) * (n as int))
                by (nonlinear_arith);
            lemma_mul_is_commutative(s as int, qsum + n);
            lemma_mul_inequality_converse(SCALE as int, qsum + n, s as int);
            assert(out@ =~= softmax_row(sample@));
        }
        out
    }

    /// The softmax of every row of a batch, sequentially. Every row must be
    /// non-empty; row lengths may differ.
    pub fn forward_batch(&self, batch: &Vec<Vec<i64>>) -> (r: Vec<Vec<i64>>)
        requires
            forall|i: int|
                0 <= i < batch@.len() ==> 1 <= (#[trigger] batch@[i])@.len() <= NMAX && bounded(
                    batch@[i]@,
                ),
        ensures
            r@.len() == batch@.len(),
            forall|i: int| 0 <= i < r@.len() ==> (#[trigger] r@[i])@ == softmax_row(batch@[i]@),
            forall|i: int, k: int|
                0 <= i < r@.len() && 0 <= k < r@[i]@.len() ==> 0 <= #[trigger] r@[i]@[k] <= SCALE,
            forall|i: int|
                0 <= i < r@.len() ==> SCALE - batch@[i]@.len() <= seq_sum((#[trigger] r@[i])@)
                    <= SCALE,
    {
        let n = batch.len();
        let mut out: Vec<Vec<i64>> = Vec::new();
        let mut i: usize = 0;
        while i < n
            invariant
                0 <= i <= n,
                n == batch@.len(),
                forall|k: int|
                    0 <= k < batch@.len() ==> 1 <= (#[trigger] batch@[k])@.len() <= NMAX && bounded(
                        batch@[k]@,
                    ),
                out@.len() == i,
                forall|k: int|
                    0 <= k < i ==> (#[trigger] out@[k])@ == softmax_row(batch@[k]@),
                forall|k: int, u: int|
                    0 <= k < i && 0 <= u < out@[k]@.len() ==> 0 <= #[trigger] out@[k]@[u]
                        <= SCALE,
                forall|k: int|
                    0 <= k < i ==> SCALE - batch@[k]@.len() <= seq_sum((#[trigger] out@[k])@)
                        <= SCALE,
            decreases n - i,
        {
            let row = self.forward_sample(&batch[i]);
            out.push(row);
            i = i + 1;
        }
        out
    }

    /// The softmax of every row of a batch, one worker per row.
    ///
    /// Relies on rayon's `par_iter().map(..).collect::<Vec<_>>()`: the
    /// collected vector holds one result per input row, in input order, so
    /// the outcome equals the sequential row-by-row map. Each row is
    /// normalized by the verified [`Softmax::forward_sample`].
    #[verifier::external_body]
    pub fn forward(&self, batch: &Vec<Vec<i64>>) -> (r: Vec<Vec<i64>>)
        requires
            forall|i: int|
                0 <= i < batch@.len() ==> 1 <= (#[trigger] batch@[i])@.len() <= NMAX && bounded(
                    batch@[i]@,
                ),
        ensures
            r@.len() == batch@.len(),
            forall|i: int| 0 <= i < r@.len() ==> (#[trigger] r@[i])@ == softmax_row(batch@[i]@),
            forall|i: int, k: int|
                0 <= i < r@.len() && 0 <= k < r@[i]@.len() ==> 0 <= #[trigger] r@[i]@[k] <= SCALE,
            forall|i: int|
                0 <= i < r@.len() ==> SCALE - batch@[i]@.len() <= seq_sum((#[trigger] r@[i])@)
                    <= SCALE,
    {
        batch.par_iter().map(|row| self.forward_sample(row)).collect()
    }
}

} // verus!
