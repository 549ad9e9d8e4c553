//! The random-search training loop: a fixed two-layer network
//! (Dense → ReLU → Dense → Softmax) improved by random perturbation,
//! keeping a trial exactly when its loss is strictly lower than the best
//! loss seen so far — pure local hill-climbing, with no mechanism to
//! escape a local minimum other than further random draws.

use vstd::prelude::*;

use crate::activation::relu::{relu_row, ReLu};
use crate::activation::softmax::{softmax_row, Softmax};
use crate::fixed::{bounded, NMAX, SCALE, VMAX};
use crate::layer::{dense_within, Dense};
use crate::loss::categorical_crossentropy::{
    batch_ok, label_ok_w, sample_loss, CategoricalCrossentropy,
};
use crate::loss::{accuracy, Loss};
use crate::series::LN_CAP;

verus! {

/// The two dense layers of the fixed network the search loop drives; the
/// activations between them (ReLU, then Softmax) never change.
pub struct Network {
    pub dense1: Dense,
    pub dense2: Dense,
}

/// One accepted improvement of the search loop: the iteration at which it
/// was found, and the trial's loss and accuracy.
pub struct TrainRecord {
    pub iteration: usize,
    pub loss: i64,
    pub accuracy: i64,
}

impl Network {
    /// Both layers are well-formed and the first one's output width is the
    /// second one's input width.
    pub open spec fn wf(&self) -> bool {
        &&& self.dense1.wf()
        &&& self.dense2.wf()
        &&& self.dense1.out_width() == self.dense2.in_width()
    }

    /// The width of samples the network accepts.
    pub open spec fn in_width(&self) -> int {
        self.dense1.in_width()
    }

    /// The width of the network's prediction rows.
    pub open spec fn out_width(&self) -> int {
        self.dense2.out_width()
    }

    /// Whether every intermediate value of the forward pass on sample `x`
    /// stays a well-formed fixed-point value.
    pub open spec fn sample_ok(&self, x: Seq<i64>) -> bool {
        &&& self.dense1.sample_small(x)
        &&& self.dense2.sample_small(relu_row(self.dense1.sample_spec(x)))
    }

    /// The network's prediction row on sample `x`: the second layer's
    /// output on the rectified first layer's output, normalized by softmax.
    pub open spec fn sample_spec(&self, x: Seq<i64>) -> Seq<i64> {
        softmax_row(self.dense2.sample_spec(relu_row(self.dense1.sample_spec(x))))
    }

    /// Every row of `x` is bounded and as wide as the network's input.
    pub open spec fn batch_wf_for(&self, x: Seq<Vec<i64>>) -> bool {
        forall|i: int|
            0 <= i < x.len() ==> bounded((#[trigger] x[i])@) && x[i]@.len() == self.in_width()
    }

    /// The full forward pass over a batch: Dense → ReLU → Dense → Softmax.
    /// `None` exactly when some intermediate value would leave the
    /// well-formed fixed-point range — the counterpart of a floating-point
    /// overflow, and fatal to a trial.
    pub fn forward(&self, x: &Vec<Vec<i64>>) -> (r: Option<Vec<Vec<i64>>>)
        requires
            self.wf(),
            self.batch_wf_for(x@),
        ensures
            r is Some <==> (forall|i: int|
                0 <= i < x@.len() ==> self.sample_ok((#[trigger] x@[i])@)),
            r is Some ==> {
                let out = r.unwrap();
                &&& out@.len() == x@.len()
                &&& forall|i: int|
                    0 <= i < out@.len() ==> (#[trigger] out@[i])@ == self.sample_spec(x@[i]@)
                        && out@[i]@.len() == self.out_width()
            },
    {
        let h1 = match self.dense1.checked_forward_batch(x) {
            Some(h) => h,
            None => {
                proof {
                    assert(exists|i: int|
                        0 <= i < x@.len() && !self.dense1.sample_small((#[trigger] x@[i])@));
                    let wi = choose|i: int|
                        0 <= i < x@.len() && !self.dense1.sample_small((#[trigger] x@[i])@);
                    assert(!self.sample_ok(x@[wi]@));
                }
                return None;
            },
        };
        let a1 = ReLu.forward_batch(&h1);
        proof {
            assert forall|i: int| 0 <= i < a1@.len() implies bounded(
                (#[trigger] a1@[i])@,
            ) && a1@[i]@.len() == self.dense2.in_width() by {
                assert(a1@[i]@ == relu_row(h1@[i]@));
                assert(bounded(h1@[i]@));
                assert forall|k: int| 0 <= k < a1@[i]@.len() implies -VMAX
                    <= #[trigger] a1@[i]@[k] <= VMAX by {
                    assert(a1@[i]@[k] == crate::activation::relu::relu_val(h1@[i]@[k]));
                }
            }
        }
        let h2 = match self.dense2.checked_forward_batch(&a1) {
            Some(h) => h,
            None => {
                proof {
                    assert(exists|i: int|
                        0 <= i < a1@.len() && !self.dense2.sample_small((#[trigger] a1@[i])@));
                    let wi = choose|i: int|
                        0 <= i < a1@.len() && !self.dense2.sample_small((#[trigger] a1@[i])@);
                    assert(a1@[wi]@ == relu_row(self.dense1.sample_spec(x@[wi]@)));
                    assert(!self.sample_ok(x@[wi]@));
                }
                return None;
            },
        };
        let out = Softmax.forward_batch(&h2);
        proof {
            assert forall|i: int| 0 <= i < x@.len() implies self.sample_ok(
                (#[trigger] x@[i])@,
            ) by {
                assert(self.dense1.sample_small(x@[i]@));
                assert(h1@[i]@ == self.dense1.sample_spec(x@[i]@));
                assert(a1@[i]@ == relu_row(h1@[i]@));
                assert(self.dense2.sample_small(a1@[i]@));
            }
            assert forall|i: int| 0 <= i < out@.len() implies (#[trigger] out@[i])@
                == self.sample_spec(x@[i]@) by {
                assert(h1@[i]@ == self.dense1.sample_spec(x@[i]@));
                assert(a1@[i]@ == relu_row(h1@[i]@));
                assert(h2@[i]@ == self.dense2.sample_spec(a1@[i]@));
                assert(out@[i]@ == softmax_row(h2@[i]@));
            }
        }
        Some(out)
    }
}

/// `n` has `base`'s shape and every weight and bias of `n` lies within
/// `magnitude` of `base`'s, component for component — the networks one
/// perturbation of `base` can reach.
pub open spec fn network_within(n: Network, base: Network, magnitude: i64) -> bool {
    &&& dense_within(n.dense1, base.dense1, magnitude)
    &&& dense_within(n.dense2, base.dense2, magnitude)
}

/// Every well-formed network of `base`'s widths within `magnitude` of
/// `base` keeps every row of `x` inside the fixed-point range: no trial of
/// one perturbation can fail the forward pass.
pub open spec fn trials_in_range(base: Network, magnitude: i64, x: Seq<Vec<i64>>) -> bool {
    forall|n: Network, i: int|
        n.wf() && n.in_width() == base.in_width() && n.out_width() == base.out_width()
            && network_within(n, base, magnitude) && 0 <= i < x.len() ==> #[trigger] n.sample_ok(
            x[i]@,
        )
}

/// Every well-formed network of `base`'s widths keeps every row of `x`
/// inside the fixed-point range: no reachable trial can ever fail the
/// forward pass.
pub open spec fn networks_in_range(base: Network, x: Seq<Vec<i64>>) -> bool {
    forall|n: Network, i: int|
        n.wf() && n.in_width() == base.in_width() && n.out_width() == base.out_width() && 0 <= i
            < x.len() ==> #[trigger] n.sample_ok(x[i]@)
}

/// The per-sample categorical cross-entropy losses of a network's
/// predictions on a batch.
pub open spec fn net_losses(net: Network, x: Seq<Vec<i64>>, y: Seq<Vec<i64>>) -> Seq<i64> {
    Seq::new(x.len(), |i: int| sample_loss(net.sample_spec(x[i]@), y[i]@) as i64)
}

/// The mean categorical cross-entropy loss of a network on a batch.
pub open spec fn net_loss(net: Network, x: Seq<Vec<i64>>, y: Seq<Vec<i64>>) -> int {
    crate::fixed::sdiv(crate::fixed::seq_sum(net_losses(net, x, y)), x.len() as int)
}

/// One hill-climbing iteration: perturbs every weight and bias of `best`
/// by at most `magnitude` into a trial, evaluates the trial on the batch,
/// and hands the trial back with its loss and accuracy exactly when that
/// loss improves strictly on `best_loss` (`None` stands for no loss
/// measured yet, which any finite loss improves on). A trial whose forward
/// pass leaves the fixed-point range never improves. Drivers on a
/// wall-clock budget call this until their time is up; [`train`] drives it
/// for a fixed iteration count.
pub fn search_step(
    best: &Network,
    best_loss: Option<i64>,
    x: &Vec<Vec<i64>>,
    y: &Vec<Vec<i64>>,
    magnitude: i64,
) -> (r: Option<(Network, i64, i64)>)
    requires
        best.wf(),
        0 <= magnitude <= VMAX,
        best.batch_wf_for(x@),
        x@.len() == y@.len(),
        1 <= x@.len() <= NMAX,
        forall|i: int| 0 <= i < y@.len() ==> label_ok_w(best.out_width(), (#[trigger] y@[i])@),
    ensures
        r matches Some(accepted) ==> {
            &&& accepted.0.wf()
            &&& accepted.0.in_width() == best.in_width()
            &&& accepted.0.out_width() == best.out_width()
            &&& network_within(accepted.0, *best, magnitude)
            &&& (best_loss matches Some(l) ==> accepted.1 < l)
            &&& accepted.1 == net_loss(accepted.0, x@, y@)
            &&& 0 <= accepted.1 <= LN_CAP
            &&& 0 <= accepted.2 <= SCALE
        },
        best_loss is None && trials_in_range(*best, magnitude, x@) ==> r is Some,
{
    let trial = Network {
        dense1: best.dense1.perturbed(magnitude),
        dense2: best.dense2.perturbed(magnitude),
    };
    match trial.forward(x) {
        Some(out) => {
            proof {
                assert forall|i: int|
                    0 <= i < out@.len() implies crate::loss::categorical_crossentropy::label_ok(
                    (#[trigger] out@[i])@,
                    y@[i]@,
                ) by {
                    assert(label_ok_w(best.out_width(), y@[i]@));
                    assert(out@[i]@.len() == trial.out_width());
                }
                assert(batch_ok(out@, y@));
            }
            let lf = CategoricalCrossentropy;
            let loss = lf.calculate(&out, y);
            proof {
                assert forall|i: int| 0 <= i < x@.len() implies (Seq::new(
                    out@.len(),
                    |k: int| lf.spec_sample_loss(out@[k]@, y@[k]@) as i64,
                ))[i] == net_losses(trial, x@, y@)[i] by {
                    assert(out@[i]@ == trial.sample_spec(x@[i]@));
                }
                assert(Seq::new(
                    out@.len(),
                    |k: int| lf.spec_sample_loss(out@[k]@, y@[k]@) as i64,
                ) =~= net_losses(trial, x@, y@));
            }
            let acc = accuracy(&out, y);
            let improved: bool = match best_loss {
                Some(l) => loss < l,
                None => true,
            };
            if improved {
                Some((trial, loss, acc))
            } else {
                None
            }
        },
        None => {
            // When every reachable trial keeps the batch in range, the
            // forward pass cannot have failed.
            proof {
                if trials_in_range(*best, magnitude, x@) {
                    assert(network_within(trial, *best, magnitude));
                    assert(exists|i: int|
                        0 <= i < x@.len() && !trial.sample_ok((#[trigger] x@[i])@));
                    let wi = choose|i: int|
                        0 <= i < x@.len() && !trial.sample_ok((#[trigger] x@[i])@);
                    assert(trial.sample_ok(x@[wi]@));
                }
            }
            None
        },
    }
}

/// Hill-climbs the network on a fixed batch for a fixed number of
/// iterations: each iteration perturbs every weight and bias of the best
/// network by at most `magnitude`, and the trial replaces the best network
/// exactly when its loss is strictly lower than every loss accepted so
/// far. A trial whose forward pass leaves the fixed-point range is
/// discarded like any non-improving one. Returns the best network and one
/// record per accepted trial: their losses are strictly decreasing — the
/// best loss never worsens — and their iterations strictly increase.
pub fn train(
    net: Network,
    x: &Vec<Vec<i64>>,
    y: &Vec<Vec<i64>>,
    iterations: usize,
    magnitude: i64,
) -> (r: (Network, Vec<TrainRecord>))
    requires
        net.wf(),
        0 <= magnitude <= VMAX,
        net.batch_wf_for(x@),
        x@.len() == y@.len(),
        1 <= x@.len() <= NMAX,
        forall|i: int| 0 <= i < y@.len() ==> label_ok_w(net.out_width(), (#[trigger] y@[i])@),
    ensures
        r.0.wf(),
        r.0.in_width() == net.in_width(),
        r.0.out_width() == net.out_width(),
        r.1@.len() <= iterations,
        iterations >= 1 && networks_in_range(net, x@) ==> r.1@.len() >= 1,
        r.1@.len() > 0 ==> r.1@[r.1@.len() - 1].loss == net_loss(r.0, x@, y@),
        forall|a: int, b: int|
            0 <= a < b < r.1@.len() ==> (#[trigger] r.1@[b]).loss < (#[trigger] r.1@[a]).loss,
        forall|a: int, b: int|
            0 <= a < b < r.1@.len() ==> (#[trigger] r.1@[a]).iteration
                < (#[trigger] r.1@[b]).iteration,
        forall|a: int|
            0 <= a < r.1@.len() ==> 0 <= (#[trigger] r.1@[a]).loss <= LN_CAP && 0
                <= r.1@[a].accuracy <= SCALE,
{
    let mut best = net;
    let mut best_loss: Option<i64> = None;
    let mut records: Vec<TrainRecord> = Vec::new();
    let mut it: usize = 0;
    while it < iterations
        invariant
            best.wf(),
            best.in_width() == net.in_width(),
            best.out_width() == net.out_width(),
            0 <= magnitude <= VMAX,
            net.batch_wf_for(x@),
            x@.len() == y@.len(),
            1 <= x@.len() <= NMAX,
            forall|i: int|
                0 <= i < y@.len() ==> label_ok_w(net.out_width(), (#[trigger] y@[i])@),
            it <= iterations,
            records@.len() <= it,
            forall|a: int, b: int|
                0 <= a < b < records@.len() ==> (#[trigger] records@[b]).loss
                    < (#[trigger] records@[a]).loss,
            forall|a: int, b: int|
                0 <= a < b < records@.len() ==> (#[trigger] records@[a]).iteration
                    < (#[trigger] records@[b]).iteration,
            forall|a: int|
                0 <= a < records@.len() ==> 0 <= (#[trigger] records@[a]).loss <= LN_CAP && 0
                    <= records@[a].accuracy <= SCALE,
            forall|a: int| 0 <= a < records@.len() ==> (#[trigger] records@[a]).iteration < it,
            networks_in_range(net, x@) && it >= 1 ==> records@.len() >= 1,
            match best_loss {
                Some(l) => records@.len() > 0 && records@[records@.len() - 1].loss == l && l
                    == net_loss(best, x@, y@),
                None => records@.len() == 0,
            },
        decreases iterations - it,
    {
        proof {
            // On a batch every reachable network keeps in range, the very
            // first trial is measured and accepted.
            if networks_in_range(net, x@) {
                assert forall|n: Network, i: int|
                    n.wf() && n.in_width() == best.in_width() && n.out_width()
                        == best.out_width() && network_within(n, best, magnitude) && 0 <= i
                        < x@.len() implies #[trigger] n.sample_ok(x@[i]@) by {}
                assert(trials_in_range(best, magnitude, x@));
            }
        }
        match search_step(&best, best_loss, x, y, magnitude) {
            Some((trial, loss, acc)) => {
                best = trial;
                best_loss = Some(loss);
                records.push(TrainRecord { iteration: it, loss, accuracy: acc });
            },
            None => {},
        }
        it = it + 1;
    }
    (best, records)
}

} // verus!
