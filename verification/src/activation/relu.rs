//! The rectified-linear activation: negative values become zero, all other
//! values pass through unchanged.

use rayon::iter::{IntoParallelRefIterator, ParallelIterator};
use vstd::prelude::*;

use crate::fixed::{bounded, VMAX};

verus! {

/// A simple activation function. Sets every negative value to 0 without
/// changing other values.
pub struct ReLu;

/// One rectified value.
pub open spec fn relu_val(v: i64) -> i64 {
    if v < 0 {
        0i64
    } else {
        v
    }
}

/// One rectified row.
pub open spec fn relu_row(s: Seq<i64>) -> Seq<i64> {
    s.map_values(|v: i64| relu_val(v))
}

impl ReLu {
    /// Rectifies one sample elementwise. Defined for every input; every
    /// output entry is nonnegative.
    pub fn forward_sample(&self, sample: &Vec<i64>) -> (r: Vec<i64>)
        ensures
            r@ == relu_row(sample@),
            r@.len() == sample@.len(),
            forall|i: int| 0 <= i < r@.len() ==> #[trigger] r@[i] == relu_val(sample@[i]),
            forall|i: int| 0 <= i < r@.len() ==> #[trigger] r@[i] >= 0,
            bounded(sample@) ==> bounded(r@),
    {
        let n = sample.len();
        let mut out: Vec<i64> = Vec::new();
        let mut i: usize = 0;
        while i < n
            invariant
                0 <= i <= n,
                n == sample@.len(),
                out@.len() == i,
                forall|k: int| 0 <= k < i ==> #[trigger] out@[k] == relu_val(sample@[k]),
            decreases n - i,
        {
            let v = sample[i];
            if v < 0 {
                out.push(0);
            } else {
                out.push(v);
            }
            i = i + 1;
        }
        proof {
            assert(out@ =~= relu_row(sample@));
        }
        out
    }

    /// Rectifies a whole batch, row by row, sequentially.
    pub fn forward_batch(&self, batch: &Vec<Vec<i64>>) -> (r: Vec<Vec<i64>>)
        ensures
            r@.len() == batch@.len(),
            forall|i: int| 0 <= i < r@.len() ==> (#[trigger] r@[i])@ == relu_row(batch@[i]@),
    {
        let n = batch.len();
        let mut out: Vec<Vec<i64>> = Vec::new();
        let mut i: usize = 0;
        while i < n
            invariant
                0 <= i <= n,
                n == batch@.len(),
                out@.len() == i,
                forall|k: int| 0 <= k < i ==> (#[trigger] out@[k])@ == relu_row(batch@[k]@),
            decreases n - i,
        {
            let row = self.forward_sample(&batch[i]);
            out.push(row);
            i = i + 1;
        }
        out
    }

    /// Rectifies a whole batch with one worker per row.
    ///
    /// Relies on rayon's `par_iter().map(..).collect::<Vec<_>>()`: the
    /// collected vector holds one result per input row, in input order, so
    /// the outcome equals the sequential row-by-row map. Each row is
    /// rectified by the verified [`ReLu::forward_sample`].
    #[verifier::external_body]
    pub fn forward(&self, batch: &Vec<Vec<i64>>) -> (r: Vec<Vec<i64>>)
        ensures
            r@.len() == batch@.len(),
            forall|i: int| 0 <= i < r@.len() ==> (#[trigger] r@[i])@ == relu_row(batch@[i]@),
    {
        batch.par_iter().map(|row| self.forward_sample(row)).collect()
    }
}

/// Rectification is a pure function of the sample: any two rows that meet
/// `forward_sample`'s contract on the same sample are identical, so
/// repeated calls return identical output.
pub proof fn lemma_relu_deterministic(s: Seq<i64>, r1: Seq<i64>, r2: Seq<i64>)
    requires
        r1 == relu_row(s),
        r2 == relu_row(s),
    ensures
        r1 == r2,
{
}

/// Rectifying a row twice gives the same row as rectifying it once, and
/// every rectified entry is nonnegative.
pub proof fn lemma_relu_idempotent(s: Seq<i64>)
    ensures
        relu_row(relu_row(s)) == relu_row(s),
        forall|i: int| 0 <= i < relu_row(s).len() ==> #[trigger] relu_row(s)[i] >= 0,
{
    assert(relu_row(relu_row(s)) =~= relu_row(s));
}

} // verus!
