//! Loss and accuracy metrics over a batch of predictions and its labels.
//!
//! Labels come in two forms, told apart by their width: a width-one label
//! row holds the target class index as a plain integer, and a label row as
//! wide as the prediction row holds a one-hot or probability vector in
//! fixed point. Any other width is a contract violation, never guessed.

use vstd::prelude::*;

use crate::fixed::{lemma_sdiv_mul_le, mul_div, sdiv, seq_sum, NMAX, SCALE};
use crate::series::LN_CAP;

pub mod categorical_crossentropy;

verus! {

use vstd::arithmetic::mul::lemma_mul_is_commutative;

use self::categorical_crossentropy::batch_ok;

/// A loss function over a batch of prediction rows and their labels.
pub trait Loss {
    /// The loss this function assigns to one prediction row and its label
    /// row.
    spec fn spec_sample_loss(&self, pred: Seq<i64>, lab: Seq<i64>) -> int;

    /// The per-sample losses of a batch: one finite, nonnegative loss per
    /// prediction row.
    fn forward(&self, output: &Vec<Vec<i64>>, y: &Vec<Vec<i64>>) -> (r: Vec<i64>)
        requires
            batch_ok(output@, y@),
        ensures
            r@.len() == output@.len(),
            forall|i: int|
                0 <= i < r@.len() ==> #[trigger] r@[i] == self.spec_sample_loss(
                    output@[i]@,
                    y@[i]@,
                ),
            forall|i: int| 0 <= i < r@.len() ==> 0 <= #[trigger] r@[i] <= LN_CAP,
    ;

    /// The mean of the per-sample losses over a non-empty batch; always
    /// finite.
    fn calculate(&self, output: &Vec<Vec<i64>>, y: &Vec<Vec<i64>>) -> (r: i64)
        requires
            batch_ok(output@, y@),
            1 <= output@.len() <= NMAX,
        ensures
            r == sdiv(
                seq_sum(
                    Seq::new(
                        output@.len(),
                        |i: int| self.spec_sample_loss(output@[i]@, y@[i]@) as i64,
                    ),
                ),
                output@.len() as int,
            ),
            0 <= r <= LN_CAP,
    ;
}

/// The first index of the largest entry of a non-empty row: on ties, the
/// lower index wins.
pub open spec fn arg_max_spec(s: Seq<i64>) -> int
    recommends
        s.len() > 0,
    decreases s.len(),
{
    if s.len() <= 1 {
        0
    } else {
        let p = arg_max_spec(s.drop_last());
        if s.last() > s[p] {
            s.len() - 1
        } else {
            p
        }
    }
}

/// `arg_max_spec` picks a maximal entry, and the first one among equals.
pub proof fn lemma_arg_max(s: Seq<i64>)
    requires
        s.len() > 0,
    ensures
        0 <= arg_max_spec(s) < s.len(),
        forall|i: int| 0 <= i < s.len() ==> #[trigger] s[i] <= s[arg_max_spec(s)],
        forall|i: int| 0 <= i < arg_max_spec(s) ==> #[trigger] s[i] < s[arg_max_spec(s)],
    decreases s.len(),
{
    if s.len() > 1 {
        let sp = s.drop_last();
        lemma_arg_max(sp);
        assert forall|i: int| 0 <= i < sp.len() implies s[i] == sp[i] by {}
        assert(s.last() == s[s.len() - 1]);
    }
}

/// The first index of the largest entry of a non-empty row; on ties the
/// lower index is selected, so the result is reproducible.
pub fn arg_max(row: &Vec<i64>) -> (r: usize)
    requires
        row@.len() >= 1,
    ensures
        r == arg_max_spec(row@),
        r < row@.len(),
        forall|i: int| 0 <= i < row@.len() ==> #[trigger] row@[i] <= row@[r as int],
        forall|i: int| 0 <= i < r ==> #[trigger] row@[i] < row@[r as int],
{
    let n = row.len();
    let mut best: usize = 0;
    let mut i: usize = 1;
    while i < n
        invariant
            1 <= i <= n,
            n == row@.len(),
            best < i,
            best == arg_max_spec(row@.take(i as int)),
        decreases n - i,
    {
        if row[i] > row[best] {
            best = i;
        }
        proof {
            assert(row@.take(i + 1).drop_last() =~= row@.take(i as int));
            assert(row@.take(i + 1).last() == row@[i as int]);
        }
        i = i + 1;
    }
    proof {
        assert(row@.take(n as int) =~= row@);
        lemma_arg_max(row@);
    }
    best
}

/// Whether one prediction row counts as correct against its label row:
/// with a full-width label, the two rows' first maxima must sit at the
/// same index; with a width-one label, the label value must equal the
/// index of the prediction's first maximum.
pub open spec fn sample_correct(pred: Seq<i64>, lab: Seq<i64>) -> bool
    recommends
        pred.len() >= 1,
        lab.len() == pred.len() || lab.len() == 1,
{
    if lab.len() == pred.len() {
        arg_max_spec(lab) == arg_max_spec(pred)
    } else if lab.len() == 1 {
        lab[0] == arg_max_spec(pred)
    } else {
        false
    }
}

/// The number of correct predictions in a batch.
pub open spec fn match_count(output: Seq<Vec<i64>>, y: Seq<Vec<i64>>) -> int
    recommends
        output.len() == y.len(),
    decreases output.len(),
{
    if output.len() == 0 {
        0
    } else {
        match_count(output.drop_last(), y.drop_last()) + if sample_correct(
            output.last()@,
            y.last()@,
        ) {
            1int
        } else {
            0int
        }
    }
}

/// At most every prediction of a batch is correct.
pub proof fn lemma_match_count_bounds(output: Seq<Vec<i64>>, y: Seq<Vec<i64>>)
    requires
        output.len() == y.len(),
    ensures
        0 <= match_count(output, y) <= output.len(),
    decreases output.len(),
{
    if output.len() > 0 {
        lemma_match_count_bounds(output.drop_last(), y.drop_last());
    }
}

/// The fraction of predictions whose class (the first maximum of the row)
/// matches the label, as a fixed-point value in `[0, 1]`.
pub fn accuracy(output: &Vec<Vec<i64>>, y: &Vec<Vec<i64>>) -> (r: i64)
    requires
        1 <= output@.len() <= NMAX,
        output@.len() == y@.len(),
        forall|i: int| 0 <= i < output@.len() ==> 1 <= (#[trigger] output@[i])@.len() <= NMAX,
        forall|i: int|
            0 <= i < y@.len() ==> (#[trigger] y@[i])@.len() == output@[i]@.len() || y@[i]@.len()
                == 1,
    ensures
        r == sdiv(match_count(output@, y@) * (SCALE as int), output@.len() as int),
        0 <= r <= SCALE,
{
    let n = output.len();
    let mut count: usize = 0;
    let mut i: usize = 0;
    while i < n
        invariant
            0 <= i <= n,
            n == output@.len() == y@.len(),
            n <= NMAX,
            forall|k: int| 0 <= k < n ==> 1 <= (#[trigger] output@[k])@.len() <= NMAX,
            forall|k: int|
                0 <= k < n ==> (#[trigger] y@[k])@.len() == output@[k]@.len() || y@[k]@.len()
                    == 1,
            count <= i,
            count == match_count(output@.take(i as int), y@.take(i as int)),
        decreases n - i,
    {
        let pi = arg_max(&output[i]);
        let correct: bool = if y[i].len() == output[i].len() {
            let li = arg_max(&y[i]);
            li == pi
        } else {
            y[i][0] == pi as i64
        };
        if correct {
            count = count + 1;
        }
        proof {
            assert(output@.take(i + 1).drop_last() =~= output@.take(i as int));
            assert(y@.take(i + 1).drop_last() =~= y@.take(i as int));
            assert(output@.take(i + 1).last() == output@[i as int]);
            assert(y@.take(i + 1).last() == y@[i as int]);
        }
        i = i + 1;
    }
    proof {
        assert(output@.take(n as int) =~= output@);
        assert(y@.take(n as int) =~= y@);
        lemma_match_count_bounds(output@, y@);
        lemma_mul_is_commutative(SCALE as int, match_count(output@, y@));
        lemma_sdiv_mul_le(SCALE as int, match_count(output@, y@), n as int, n as int);
    }
    mul_div(count as i64, SCALE, n as i64)
}

} // verus!
