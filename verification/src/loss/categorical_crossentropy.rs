//! The categorical cross-entropy loss.
//!
//! Every prediction value is first clamped into `[EPS, SCALE - EPS]` —
//! symmetrically on both sides, so the mean is not dragged toward either
//! extreme — and only then put through the logarithm, which is therefore
//! always applied inside its domain: even a prediction of exactly zero or
//! one yields a finite loss.

use vstd::prelude::*;

use crate::fixed::{
    bounded, dot, lemma_dot_range_weighted, lemma_sdiv_nonneg, sdiv, seq_sum, NMAX, SCALE,
};
use crate::loss::Loss;
use crate::neuron::dot_exec;
use crate::series::{fp_neg_ln, fp_neg_ln_spec, LN_CAP};

verus! {

use vstd::arithmetic::div_mod::{
    lemma_div_by_multiple,
    lemma_div_is_ordered,
    lemma_div_multiples_vanish,
};

/// The clipping bound, one ten-millionth in fixed point: predictions are
/// clamped into `[EPS, SCALE - EPS]` before any logarithm.
pub const EPS: i64 = 100;

/// One prediction value clamped into `[EPS, SCALE - EPS]`.
pub open spec fn clip(v: i64) -> i64 {
    if v < EPS {
        EPS
    } else if v > SCALE - EPS {
        (SCALE - EPS) as i64
    } else {
        v
    }
}

/// A whole prediction row clamped.
pub open spec fn clip_row(s: Seq<i64>) -> Seq<i64> {
    s.map_values(|v: i64| clip(v))
}

/// The label rows the loss accepts for predictions of width `w`: a
/// width-one row holding a class index below `w`, or a row of width `w`
/// holding a probability distribution (entries in `[0, SCALE]` that sum to
/// `SCALE`, one-hot rows included).
pub open spec fn label_ok_w(w: int, lab: Seq<i64>) -> bool {
    if lab.len() == 1 {
        0 <= lab[0] < w
    } else {
        &&& lab.len() == w
        &&& forall|i: int| 0 <= i < lab.len() ==> 0 <= #[trigger] lab[i] <= SCALE
        &&& seq_sum(lab) == SCALE
    }
}

/// The label rows the loss accepts for a prediction row.
pub open spec fn label_ok(pred: Seq<i64>, lab: Seq<i64>) -> bool {
    label_ok_w(pred.len() as int, lab)
}

/// The loss of one sample: the negated logarithm of the clamped
/// prediction at the labelled class — for distribution labels, of the
/// label-weighted sum of the clamped prediction row.
pub open spec fn sample_loss(pred: Seq<i64>, lab: Seq<i64>) -> int
    recommends
        pred.len() >= 1,
        label_ok(pred, lab),
{
    if lab.len() == 1 {
        fp_neg_ln_spec(clip(pred[lab[0] as int]) as int)
    } else {
        fp_neg_ln_spec(sdiv(dot(clip_row(pred), lab), SCALE as int))
    }
}

/// The batches the loss accepts: one label row per prediction row, every
/// prediction row non-empty, every label row of a valid form.
pub open spec fn batch_ok(output: Seq<Vec<i64>>, y: Seq<Vec<i64>>) -> bool {
    &&& output.len() == y.len()
    &&& forall|i: int| 0 <= i < output.len() ==> 1 <= (#[trigger] output[i])@.len() <= NMAX
    &&& forall|i: int| 0 <= i < output.len() ==> label_ok((#[trigger] output[i])@, y[i]@)
}

/// The categorical cross-entropy loss function.
pub struct CategoricalCrossentropy;

/// The loss of one sample; always finite, in `[0, LN_CAP]`.
fn one_loss(pred: &Vec<i64>, lab: &Vec<i64>) -> (r: i64)
    requires
        1 <= pred@.len() <= NMAX,
        label_ok(pred@, lab@),
    ensures
        r == sample_loss(pred@, lab@),
        0 <= r <= LN_CAP,
{
    if lab.len() == 1 {
        let idx = lab[0];
        let v = pred[idx as usize];
        let c: i64 = if v < EPS {
            EPS
        } else if v > SCALE - EPS {
            SCALE - EPS
        } else {
            v
        };
        fp_neg_ln(c)
    } else {
        let n = pred.len();
        let mut cv: Vec<i64> = Vec::new();
        let mut i: usize = 0;
        while i < n
            invariant
                0 <= i <= n,
                n == pred@.len(),
                cv@.len() == i,
                forall|k: int| 0 <= k < i ==> #[trigger] cv@[k] == clip(pred@[k]),
                forall|k: int| 0 <= k < i ==> EPS <= #[trigger] cv@[k] <= SCALE - EPS,
            decreases n - i,
        {
            let v = pred[i];
            let c: i64 = if v < EPS {
                EPS
            } else if v > SCALE - EPS {
                SCALE - EPS
            } else {
                v
            };
            cv.push(c);
            i = i + 1;
        }
        proof {
            assert(cv@ =~= clip_row(pred@));
            assert(bounded(cv@));
            assert(bounded(lab@));
        }
        let d = dot_exec(&cv, lab);
        proof {
            lemma_dot_range_weighted(cv@, lab@, EPS as int, (SCALE - EPS) as int);
            lemma_div_by_multiple(EPS as int, SCALE as int);
            lemma_div_by_multiple((SCALE - EPS) as int, SCALE as int);
            lemma_div_is_ordered((EPS as int) * (SCALE as int), dot(cv@, lab@), SCALE as int);
            lemma_div_is_ordered(
                dot(cv@, lab@),
                ((SCALE - EPS) as int) * (SCALE as int),
                SCALE as int,
            );
        }
        let q: i64 = (d / (SCALE as i128)) as i64;
        fp_neg_ln(q)
    }
}

impl Loss for CategoricalCrossentropy {
    /// The categorical cross-entropy of one sample, after clamping.
    open spec fn spec_sample_loss(&self, pred: Seq<i64>, lab: Seq<i64>) -> int {
        sample_loss(pred, lab)
    }

    fn forward(&self, output: &Vec<Vec<i64>>, y: &Vec<Vec<i64>>) -> (r: Vec<i64>) {
        let n = output.len();
        let mut out: Vec<i64> = Vec::new();
        let mut i: usize = 0;
        while i < n
            invariant
                0 <= i <= n,
                n == output@.len() == y@.len(),
                batch_ok(output@, y@),
                out@.len() == i,
                forall|k: int| 0 <= k < i ==> #[trigger] out@[k] == sample_loss(
                    output@[k]@,
                    y@[k]@,
                ),
                forall|k: int| 0 <= k < i ==> 0 <= #[trigger] out@[k] <= LN_CAP,
            decreases n - i,
        {
            let l = one_loss(&output[i], &y[i]);
            out.push(l);
            i = i + 1;
        }
        out
    }

    fn calculate(&self, output: &Vec<Vec<i64>>, y: &Vec<Vec<i64>>) -> (r: i64) {
        let losses = self.forward(output, y);
        let n = losses.len();
        let mut total: i64 = 0;
        let mut i: usize = 0;
        while i < n
            invariant
                0 <= i <= n,
                n == losses@.len(),
                n <= NMAX,
                forall|k: int| 0 <= k < n ==> 0 <= #[trigger] losses@[k] <= LN_CAP,
                total == seq_sum(losses@.take(i as int)),
                0 <= total <= (i as int) * (LN_CAP as int),
            decreases n - i,
        {
            proof {
                assert(losses@.take(i + 1).drop_last() =~= losses@.take(i as int));
                assert((i as int) * (LN_CAP as int) + (LN_CAP as int) == ((i + 1) as int) * (
                LN_CAP as int)) by (nonlinear_arith);
                assert(((i + 1) as int) * (LN_CAP as int) <= (NMAX as int) * (LN_CAP as int))
                    by (nonlinear_arith)
                    requires
                        i + 1 <= NMAX,
                ;
            }
            total = total + losses[i];
            i = i + 1;
        }
        proof {
            assert(losses@.take(n as int) =~= losses@);
            assert(losses@ =~= Seq::new(
                output@.len(),
                |i: int| self.spec_sample_loss(output@[i]@, y@[i]@) as i64,
            ));
            lemma_sdiv_nonneg(total as int, n as int);
            lemma_div_multiples_vanish(LN_CAP as int, n as int);
            lemma_div_is_ordered(total as int, (n as int) * (LN_CAP as int), n as int);
        }
        total / (n as i64)
    }
}

} // verus!
