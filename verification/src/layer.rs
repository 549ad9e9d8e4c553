//! A dense (fully-connected) layer: a row of neurons sharing one input.

use vstd::prelude::*;

use crate::fixed::{bounded, NMAX, SCALE, VMAX};
use crate::neuron::{dot_exec, Neuron};
use crate::random::random_in;

verus! {

/// A dense layer owns one neuron per output value. Every neuron's weight
/// row has the layer's input width.
#[derive(Debug, Clone)]
pub struct Dense {
    pub neurons: Vec<Neuron>,
}

/// `a` has `b`'s shape and every weight and bias of `a` lies within
/// `magnitude` of `b`'s, component for component.
pub open spec fn dense_within(a: Dense, b: Dense, magnitude: i64) -> bool {
    &&& a.neurons@.len() == b.neurons@.len()
    &&& forall|j: int|
        0 <= j < a.neurons@.len() ==> (#[trigger] a.neurons@[j]).weights@.len()
            == b.neurons@[j].weights@.len()
    &&& forall|j: int, k: int|
        0 <= j < a.neurons@.len() && 0 <= k < a.neurons@[j].weights@.len() ==> -magnitude
            <= #[trigger] a.neurons@[j].weights@[k] - b.neurons@[j].weights@[k] <= magnitude
    &&& forall|j: int|
        0 <= j < a.neurons@.len() ==> -magnitude <= (#[trigger] a.neurons@[j]).bias
            - b.neurons@[j].bias <= magnitude
}

impl Dense {
    /// The layer has at least one neuron, every neuron is well-formed, and
    /// all weight rows share one width.
    pub open spec fn wf(&self) -> bool {
        &&& 1 <= self.neurons@.len() <= NMAX
        &&& forall|j: int| 0 <= j < self.neurons@.len() ==> (#[trigger] self.neurons@[j]).wf()
        &&& forall|j: int|
            0 <= j < self.neurons@.len() ==> (#[trigger] self.neurons@[j]).weights@.len()
                == self.in_width()
    }

    /// The width of samples the layer accepts.
    pub open spec fn in_width(&self) -> int {
        self.neurons@[0].weights@.len() as int
    }

    /// The width of samples the layer produces.
    pub open spec fn out_width(&self) -> int {
        self.neurons@.len() as int
    }

    /// Every output value of the layer on sample `x` fits in an `i64`.
    pub open spec fn sample_fits(&self, x: Seq<i64>) -> bool {
        forall|j: int|
            0 <= j < self.neurons@.len() ==> i64::MIN
                <= (#[trigger] self.neurons@[j]).out_spec(x) <= i64::MAX
    }

    /// Every output value of the layer on sample `x` is a well-formed
    /// fixed-point value, so the output may feed another layer.
    pub open spec fn sample_small(&self, x: Seq<i64>) -> bool {
        forall|j: int|
            0 <= j < self.neurons@.len() ==> -VMAX <= (#[trigger] self.neurons@[j]).out_spec(x)
                <= VMAX
    }

    /// The layer's output row on sample `x`, as fixed-point values.
    pub open spec fn sample_spec(&self, x: Seq<i64>) -> Seq<i64> {
        Seq::new(self.neurons@.len(), |j: int| self.neurons@[j].out_spec(x) as i64)
    }

    pub fn new(neurons: Vec<Neuron>) -> (r: Dense)
        ensures
            r.neurons == neurons,
    {
        Dense { neurons }
    }

    /// A layer of the given widths with every weight drawn uniformly from
    /// `[-1, 1]` — a fixed range symmetric around zero — and every bias
    /// zero.
    pub fn random(inputs: usize, outputs: usize) -> (r: Dense)
        requires
            1 <= inputs <= NMAX,
            1 <= outputs <= NMAX,
        ensures
            r.wf(),
            r.in_width() == inputs,
            r.out_width() == outputs,
            forall|j: int| 0 <= j < r.neurons@.len() ==> (#[trigger] r.neurons@[j]).bias == 0,
            forall|j: int, k: int|
                0 <= j < r.neurons@.len() && 0 <= k < r.neurons@[j].weights@.len() ==> -SCALE
                    <= #[trigger] r.neurons@[j].weights@[k] <= SCALE,
    {
        let mut neurons: Vec<Neuron> = Vec::new();
        let mut j: usize = 0;
        while j < outputs
            invariant
                0 <= j <= outputs,
                1 <= inputs <= NMAX,
                outputs <= NMAX,
                neurons@.len() == j,
                forall|k: int|
                    0 <= k < j ==> (#[trigger] neurons@[k]).wf() && neurons@[k].weights@.len()
                        == inputs,
                forall|k: int| 0 <= k < j ==> (#[trigger] neurons@[k]).bias == 0,
                forall|a: int, k: int|
                    0 <= a < j && 0 <= k < neurons@[a].weights@.len() ==> -SCALE
                        <= #[trigger] neurons@[a].weights@[k] <= SCALE,
            decreases outputs - j,
        {
            let mut weights: Vec<i64> = Vec::new();
            let mut i: usize = 0;
            while i < inputs
                invariant
                    0 <= i <= inputs,
                    inputs <= NMAX,
                    weights@.len() == i,
                    forall|k: int| 0 <= k < i ==> -SCALE <= #[trigger] weights@[k] <= SCALE,
                decreases inputs - i,
            {
                let w = random_in(SCALE);
                weights.push(w);
                i = i + 1;
            }
            neurons.push(Neuron { weights, bias: 0 });
            j = j + 1;
        }
        Dense { neurons }
    }

    /// A snapshot of the layer with every weight and bias moved by an
    /// independent uniform random value of magnitude at most `magnitude`
    /// (and kept a well-formed fixed-point value); the layer itself is
    /// untouched, so the caller can roll back by keeping it.
    pub fn perturbed(&self, magnitude: i64) -> (r: Dense)
        requires
            self.wf(),
            0 <= magnitude <= VMAX,
        ensures
            r.wf(),
            r.in_width() == self.in_width(),
            r.out_width() == self.out_width(),
            dense_within(r, *self, magnitude),
    {
        let n = self.neurons.len();
        let mut neurons: Vec<Neuron> = Vec::new();
        let mut j: usize = 0;
        while j < n
            invariant
                0 <= j <= n,
                n == self.neurons@.len(),
                self.wf(),
                0 <= magnitude <= VMAX,
                neurons@.len() == j,
                forall|k: int|
                    0 <= k < j ==> (#[trigger] neurons@[k]).wf() && neurons@[k].weights@.len()
                        == self.in_width(),
                forall|a: int, k: int|
                    0 <= a < j && 0 <= k < neurons@[a].weights@.len() ==> -magnitude
                        <= #[trigger] neurons@[a].weights@[k] - self.neurons@[a].weights@[k]
                        <= magnitude,
                forall|a: int|
                    0 <= a < j ==> -magnitude <= (#[trigger] neurons@[a]).bias
                        - self.neurons@[a].bias <= magnitude,
            decreases n - j,
        {
            let src = &self.neurons[j];
            let m = src.weights.len();
            let mut weights: Vec<i64> = Vec::new();
            let mut i: usize = 0;
            while i < m
                invariant
                    0 <= i <= m,
                    m == src.weights@.len(),
                    src.wf(),
                    0 <= magnitude <= VMAX,
                    weights@.len() == i,
                    forall|k: int| 0 <= k < i ==> -VMAX <= #[trigger] weights@[k] <= VMAX,
                    forall|k: int|
                        0 <= k < i ==> -magnitude <= #[trigger] weights@[k] - src.weights@[k]
                            <= magnitude,
                decreases m - i,
            {
                let w = perturb_value(src.weights[i], magnitude);
                weights.push(w);
                i = i + 1;
            }
            let bias = perturb_value(src.bias, magnitude);
            neurons.push(Neuron { weights, bias });
            j = j + 1;
        }
        Dense { neurons }
    }

    /// Evaluates the layer on one sample: output `j` is neuron `j`'s
    /// output. The sample width must equal the layer's input width; any
    /// other width is a contract violation, never a broadcast.
    pub fn forward_sample(&self, input: &Vec<i64>) -> (r: Vec<i64>)
        requires
            self.wf(),
            bounded(input@),
            input@.len() == self.in_width(),
            self.sample_fits(input@),
        ensures
            r@.len() == self.out_width(),
            forall|j: int| 0 <= j < r@.len() ==> r@[j] == self.neurons@[j].out_spec(input@),
    {
        let n = self.neurons.len();
        let mut out: Vec<i64> = Vec::new();
        let mut j: usize = 0;
        while j < n
            invariant
                0 <= j <= n,
                n == self.neurons@.len(),
                self.wf(),
                bounded(input@),
                input@.len() == self.in_width(),
                self.sample_fits(input@),
                out@.len() == j,
                forall|k: int| 0 <= k < j ==> out@[k] == self.neurons@[k].out_spec(input@),
            decreases n - j,
        {
            let v = self.neurons[j].forward(input);
            out.push(v);
            j = j + 1;
        }
        out
    }

    /// Evaluates the layer on a whole batch, one output row per input row.
    /// The output batch has the same length as the input batch and every
    /// output row has the layer's output width.
    pub fn forward_batch(&self, batch: &Vec<Vec<i64>>) -> (r: Vec<Vec<i64>>)
        requires
            self.wf(),
            forall|i: int|
                0 <= i < batch@.len() ==> bounded((#[trigger] batch@[i])@) && batch@[i]@.len()
                    == self.in_width() && self.sample_fits(batch@[i]@),
        ensures
            r@.len() == batch@.len(),
            forall|i: int| 0 <= i < r@.len() ==> (#[trigger] r@[i])@.len() == self.out_width(),
            forall|i: int, j: int|
                0 <= i < r@.len() && 0 <= j < r@[i]@.len() ==> #[trigger] r@[i]@[j]
                    == self.neurons@[j].out_spec(batch@[i]@),
    {
        let n = batch.len();
        let mut out: Vec<Vec<i64>> = Vec::new();
        let mut i: usize = 0;
        while i < n
            invariant
                0 <= i <= n,
                n == batch@.len(),
                self.wf(),
                forall|k: int|
                    0 <= k < batch@.len() ==> bounded((#[trigger] batch@[k])@) && batch@[k]@.len()
                        == self.in_width() && self.sample_fits(batch@[k]@),
                out@.len() == i,
                forall|k: int| 0 <= k < i ==> (#[trigger] out@[k])@.len() == self.out_width(),
                forall|k: int, j: int|
                    0 <= k < i && 0 <= j < out@[k]@.len() ==> #[trigger] out@[k]@[j]
                        == self.neurons@[j].out_spec(batch@[k]@),
            decreases n - i,
        {
            let row = self.forward_sample(&batch[i]);
            out.push(row);
            i = i + 1;
        }
        out
    }

    /// Evaluates the layer on one sample, checking at run time that every
    /// output is a well-formed fixed-point value; returns `None` exactly
    /// when some output would leave the well-formed range.
    pub(crate) fn checked_forward_sample(&self, input: &Vec<i64>) -> (r: Option<Vec<i64>>)
        requires
            self.wf(),
            bounded(input@),
            input@.len() == self.in_width(),
        ensures
            r is Some <==> self.sample_small(input@),
            r is Some ==> {
                let out = r.unwrap();
                &&& out@.len() == self.out_width()
                &&& bounded(out@)
                &&& out@ == self.sample_spec(input@)
                &&& forall|j: int|
                    0 <= j < out@.len() ==> out@[j] == self.neurons@[j].out_spec(input@)
            },
    {
        let n = self.neurons.len();
        let mut out: Vec<i64> = Vec::new();
        let mut j: usize = 0;
        while j < n
            invariant
                0 <= j <= n,
                n == self.neurons@.len(),
                self.wf(),
                bounded(input@),
                input@.len() == self.in_width(),
                out@.len() == j,
                forall|k: int|
                    0 <= k < j ==> -VMAX <= (#[trigger] self.neurons@[k]).out_spec(input@) <= VMAX,
                forall|k: int| 0 <= k < j ==> out@[k] == self.neurons@[k].out_spec(input@),
            decreases n - j,
        {
            let acc = dot_exec(input, &self.neurons[j].weights);
            let q: i128 = acc / (crate::fixed::SCALE as i128);
            let v: i128 = q + (self.neurons[j].bias as i128);
            if v < -(VMAX as i128) || v > (VMAX as i128) {
                return None;
            }
            out.push(v as i64);
            j = j + 1;
        }
        proof {
            assert(out@ =~= self.sample_spec(input@));
        }
        Some(out)
    }

    /// Evaluates the layer on a whole batch with the same run-time check as
    /// [`Dense::checked_forward_sample`]; `None` exactly when some row's
    /// output would leave the well-formed range.
    pub(crate) fn checked_forward_batch(&self, batch: &Vec<Vec<i64>>) -> (r: Option<
        Vec<Vec<i64>>,
    >)
        requires
            self.wf(),
            forall|i: int|
                0 <= i < batch@.len() ==> bounded((#[trigger] batch@[i])@) && batch@[i]@.len()
                    == self.in_width(),
        ensures
            r is Some <==> (forall|i: int|
                0 <= i < batch@.len() ==> self.sample_small((#[trigger] batch@[i])@)),
            r is Some ==> {
                let out = r.unwrap();
                &&& out@.len() == batch@.len()
                &&& forall|i: int|
                    0 <= i < out@.len() ==> (#[trigger] out@[i])@ == self.sample_spec(
                        batch@[i]@,
                    ) && out@[i]@.len() == self.out_width() && bounded(out@[i]@)
            },
    {
        let n = batch.len();
        let mut out: Vec<Vec<i64>> = Vec::new();
        let mut i: usize = 0;
        while i < n
            invariant
                0 <= i <= n,
                n == batch@.len(),
                self.wf(),
                forall|k: int|
                    0 <= k < batch@.len() ==> bounded((#[trigger] batch@[k])@) && batch@[k]@.len()
                        == self.in_width(),
                out@.len() == i,
                forall|k: int| 0 <= k < i ==> self.sample_small((#[trigger] batch@[k])@),
                forall|k: int|
                    0 <= k < i ==> (#[trigger] out@[k])@ == self.sample_spec(batch@[k]@)
                        && out@[k]@.len() == self.out_width() && bounded(out@[k]@),
            decreases n - i,
        {
            let row = self.checked_forward_sample(&batch[i]);
            match row {
                Some(row) => {
                    out.push(row);
                },
                None => {
                    return None;
                },
            }
            i = i + 1;
        }
        Some(out)
    }
}

/// Evaluating a dense layer is a pure function of the layer and the
/// sample: any two rows that meet `forward_sample`'s contract on the same
/// layer and sample are identical, so repeated calls return identical
/// output.
pub proof fn lemma_dense_forward_deterministic(d: Dense, x: Seq<i64>, r1: Seq<i64>, r2: Seq<i64>)
    requires
        r1.len() == d.out_width(),
        forall|j: int| 0 <= j < r1.len() ==> #[trigger] r1[j] == d.neurons@[j].out_spec(x),
        r2.len() == d.out_width(),
        forall|j: int| 0 <= j < r2.len() ==> #[trigger] r2[j] == d.neurons@[j].out_spec(x),
    ensures
        r1 == r2,
{
    assert(r1 =~= r2);
}

/// One value moved by a uniform random draw of magnitude at most `m`,
/// clamped into the well-formed range.
fn perturb_value(v: i64, m: i64) -> (r: i64)
    requires
        -VMAX <= v <= VMAX,
        0 <= m <= VMAX,
    ensures
        -VMAX <= r <= VMAX,
        -m <= r - v <= m,
{
    let d = random_in(m);
    let w = v + d;
    if w < -VMAX {
        -VMAX
    } else if w > VMAX {
        VMAX
    } else {
        w
    }
}

} // verus!
