//! A single neuron: a weight row and a bias.

use vstd::prelude::*;

use crate::fixed::{bounded, dot, lemma_dot_bound, sdiv, NMAX, SCALE, VMAX};

verus! {

/// One neuron of a dense layer: its incoming weights and its bias, all
/// fixed-point values.
#[derive(Debug, Clone)]
pub struct Neuron {
    pub weights: Vec<i64>,
    pub bias: i64,
}

impl Neuron {
    /// Weights and bias are well-formed fixed-point values and the weight
    /// row is not absurdly long.
    pub open spec fn wf(&self) -> bool {
        &&& self.weights@.len() <= NMAX
        &&& bounded(self.weights@)
        &&& -VMAX <= self.bias <= VMAX
    }

    /// The neuron's output on one sample: the inner product of the sample
    /// with the weights, rescaled, plus the bias.
    pub open spec fn out_spec(&self, x: Seq<i64>) -> int {
        sdiv(dot(x, self.weights@), SCALE as int) + self.bias
    }

    pub fn new(weights: Vec<i64>, bias: i64) -> (r: Neuron)
        ensures
            r.weights == weights,
            r.bias == bias,
    {
        Neuron { weights, bias }
    }

    /// Evaluates the neuron on one sample of the same width as the weight
    /// row. The width must match: feeding a sample of another width is a
    /// contract violation, not a broadcast.
    pub fn forward(&self, inputs: &Vec<i64>) -> (r: i64)
        requires
            self.wf(),
            bounded(inputs@),
            inputs@.len() == self.weights@.len(),
            i64::MIN <= self.out_spec(inputs@) <= i64::MAX,
        ensures
            r == self.out_spec(inputs@),
    {
        let acc = dot_exec(inputs, &self.weights);
        let q: i128 = acc / (SCALE as i128);
        let r: i128 = q + (self.bias as i128);
        r as i64
    }
}

/// The raw inner product of two equally long, bounded rows, accumulated
/// exactly in 128 bits.
pub(crate) fn dot_exec(x: &Vec<i64>, w: &Vec<i64>) -> (r: i128)
    requires
        x@.len() == w@.len(),
        x@.len() <= NMAX,
        bounded(x@),
        bounded(w@),
    ensures
        r == dot(x@, w@),
        -(x@.len() as int) * (VMAX as int) * (VMAX as int) <= r
            <= (x@.len() as int) * (VMAX as int) * (VMAX as int),
{
    let n = x.len();
    let mut acc: i128 = 0;
    let mut i: usize = 0;
    while i < n
        invariant
            0 <= i <= n,
            n == x@.len() == w@.len(),
            n <= NMAX,
            bounded(x@),
            bounded(w@),
            acc == dot(x@.take(i as int), w@.take(i as int)),
            -(i as int) * (VMAX as int) * (VMAX as int) <= acc
                <= (i as int) * (VMAX as int) * (VMAX as int),
        decreases n - i,
    {
        proof {
            assert(-(VMAX as int) * (VMAX as int) <= (x@[i as int] as int) * (w@[i as int] as int)
                <= (VMAX as int) * (VMAX as int)) by (nonlinear_arith)
                requires
                    -VMAX <= x@[i as int] <= VMAX,
                    -VMAX <= w@[i as int] <= VMAX,
            ;
            assert((i as int) * (VMAX as int) * (VMAX as int) + (VMAX as int) * (VMAX as int)
                == (i + 1) * (VMAX as int) * (VMAX as int)) by (nonlinear_arith);
            assert((i + 1) * (VMAX as int) * (VMAX as int)
                <= (NMAX as int) * (VMAX as int) * (VMAX as int)) by (nonlinear_arith)
                requires
                    i + 1 <= NMAX,
            ;
        }
        acc = acc + (x[i] as i128) * (w[i] as i128);
        proof {
            assert(x@.take(i + 1).drop_last() =~= x@.take(i as int));
            assert(w@.take(i + 1).drop_last() =~= w@.take(i as int));
        }
        i = i + 1;
    }
    proof {
        assert(x@.take(n as int) =~= x@);
        assert(w@.take(n as int) =~= w@);
        lemma_dot_bound(x@, w@, VMAX as int, VMAX as int);
    }
    acc
}

} // verus!
