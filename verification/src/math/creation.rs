//! Creation of vectors and matrices: linearly spaced values and random
//! matrices.

use vstd::prelude::*;

use crate::fixed::{sdiv, NMAX, SCALE, VMAX};
use crate::random::random_in;

verus! {

use vstd::arithmetic::div_mod::lemma_fundamental_div_mod;

/// A vector of `samples` linearly spaced values from `start` (inclusive)
/// toward `stop` (exclusive): value `i` is `start + i * step` with the
/// step the truncated `(stop - start) / samples`.
pub fn linspace(start: i64, stop: i64, samples: usize) -> (r: Vec<i64>)
    requires
        1 <= samples <= NMAX,
        -VMAX <= start <= VMAX,
        -VMAX <= stop <= VMAX,
    ensures
        r@.len() == samples,
        forall|i: int|
            0 <= i < r@.len() ==> #[trigger] r@[i] == start + i * sdiv(
                stop - start,
                samples as int,
            ),
{
    let n = samples as i64;
    let step = (stop - start) / n;
    proof {
        let nn = n as int;
        let diff = (stop - start) as int;
        if diff >= 0 {
            lemma_fundamental_div_mod(diff, nn);
            vstd::arithmetic::div_mod::lemma_mod_division_less_than_divisor(diff, nn);
            vstd::arithmetic::div_mod::lemma_div_pos_is_pos(diff, nn);
            assert(step == diff / nn);
            assert(diff == nn * (diff / nn) + diff % nn);
            assert(nn * (step as int) <= diff);
            assert(step >= 0);
        } else {
            lemma_fundamental_div_mod(-diff, nn);
            vstd::arithmetic::div_mod::lemma_mod_division_less_than_divisor(-diff, nn);
            vstd::arithmetic::div_mod::lemma_div_pos_is_pos(-diff, nn);
            assert(-(step as int) == (-diff) / nn);
            assert(-diff == nn * ((-diff) / nn) + (-diff) % nn);
            assert(nn * (-(step as int)) <= -diff);
            assert(step <= 0);
        }
    }
    let mut out: Vec<i64> = Vec::new();
    let mut cur: i64 = start;
    let mut i: usize = 0;
    while i < samples
        invariant
            0 <= i <= samples,
            1 <= samples <= NMAX,
            -VMAX <= start <= VMAX,
            -VMAX <= stop <= VMAX,
            step == sdiv(stop - start, samples as int),
            n == samples as i64,
            stop >= start ==> step >= 0 && (n as int) * step <= stop - start,
            stop < start ==> step <= 0 && (n as int) * (-step) <= start - stop,
            cur == start + i * step,
            -3 * VMAX <= cur <= 3 * VMAX,
            out@.len() == i,
            forall|k: int| 0 <= k < i ==> #[trigger] out@[k] == start + k * step,
        decreases samples - i,
    {
        out.push(cur);
        proof {
            assert((i + 1) * step == i * step + step) by (nonlinear_arith);
            if step >= 0 {
                assert(0 <= (i + 1) * step <= (n as int) * step) by (nonlinear_arith)
                    requires
                        0 <= i + 1 <= n,
                        step >= 0,
                ;
            } else {
                assert(0 <= (i + 1) * (-step) <= (n as int) * (-step)) by (nonlinear_arith)
                    requires
                        0 <= i + 1 <= n,
                        -step >= 0,
                ;
                assert((i + 1) * (-step) == -((i + 1) * step)) by (nonlinear_arith);
            }
        }
        cur = cur + step;
        i = i + 1;
    }
    out
}

/// A matrix of the given shape filled with independent uniform random
/// values in `[-1, 1]`.
pub fn randn_matrix(rows: usize, columns: usize) -> (r: Vec<Vec<i64>>)
    ensures
        r@.len() == rows,
        forall|i: int| 0 <= i < r@.len() ==> (#[trigger] r@[i])@.len() == columns,
        forall|i: int, j: int|
            0 <= i < r@.len() && 0 <= j < r@[i]@.len() ==> -SCALE <= #[trigger] r@[i]@[j] <= SCALE,
{
    let mut out: Vec<Vec<i64>> = Vec::new();
    let mut i: usize = 0;
    while i < rows
        invariant
            0 <= i <= rows,
            out@.len() == i,
            forall|k: int| 0 <= k < i ==> (#[trigger] out@[k])@.len() == columns,
            forall|k: int, j: int|
                0 <= k < i && 0 <= j < out@[k]@.len() ==> -SCALE <= #[trigger] out@[k]@[j]
                    <= SCALE,
        decreases rows - i,
    {
        let mut row: Vec<i64> = Vec::new();
        let mut j: usize = 0;
        while j < columns
            invariant
                0 <= j <= columns,
                row@.len() == j,
                forall|k: int| 0 <= k < j ==> -SCALE <= #[trigger] row@[k] <= SCALE,
            decreases columns - j,
        {
            row.push(random_in(SCALE));
            j = j + 1;
        }
        out.push(row);
        i = i + 1;
    }
    out
}

} // verus!
