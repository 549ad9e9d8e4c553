//! Inner products of vectors and matrices, rescaled once per product.

use vstd::prelude::*;

use crate::fixed::{bounded, dot, sdiv, NMAX, SCALE};
use crate::math::operations::t;
use crate::neuron::dot_exec;

verus! {

/// Column `j` of a matrix.
pub open spec fn col(m: Seq<Vec<i64>>, j: int) -> Seq<i64> {
    Seq::new(m.len(), |i: int| m[i]@[j])
}

/// The inner product of two equally long rows of well-formed values, as a
/// fixed-point value.
pub fn vectors(left: &Vec<i64>, right: &Vec<i64>) -> (r: i64)
    requires
        left@.len() == right@.len(),
        left@.len() <= NMAX,
        bounded(left@),
        bounded(right@),
        i64::MIN <= sdiv(dot(left@, right@), SCALE as int) <= i64::MAX,
    ensures
        r == sdiv(dot(left@, right@), SCALE as int),
{
    let d = dot_exec(left, right);
    (d / (SCALE as i128)) as i64
}

/// One inner product per matrix row against the vector.
pub fn matrix_vector(left: &Vec<Vec<i64>>, right: &Vec<i64>) -> (r: Vec<i64>)
    requires
        right@.len() <= NMAX,
        bounded(right@),
        forall|i: int|
            0 <= i < left@.len() ==> bounded((#[trigger] left@[i])@) && left@[i]@.len()
                == right@.len(),
        forall|i: int|
            0 <= i < left@.len() ==> i64::MIN <= sdiv(
                dot((#[trigger] left@[i])@, right@),
                SCALE as int,
            ) <= i64::MAX,
    ensures
        r@.len() == left@.len(),
        forall|i: int|
            0 <= i < r@.len() ==> #[trigger] r@[i] == sdiv(dot(left@[i]@, right@), SCALE as int),
{
    let n = left.len();
    let mut out: Vec<i64> = Vec::new();
    let mut i: usize = 0;
    while i < n
        invariant
            0 <= i <= n,
            n == left@.len(),
            right@.len() <= NMAX,
            bounded(right@),
            forall|k: int|
                0 <= k < left@.len() ==> bounded((#[trigger] left@[k])@) && left@[k]@.len()
                    == right@.len(),
            forall|k: int|
                0 <= k < left@.len() ==> i64::MIN <= sdiv(
                    dot((#[trigger] left@[k])@, right@),
                    SCALE as int,
                ) <= i64::MAX,
            out@.len() == i,
            forall|k: int|
                0 <= k < i ==> #[trigger] out@[k] == sdiv(dot(left@[k]@, right@), SCALE as int),
        decreases n - i,
    {
        let v = vectors(&left[i], right);
        out.push(v);
        i = i + 1;
    }
    out
}

/// The matrix product, rescaled once per entry: entry `(i, j)` is the
/// inner product of row `i` of `left` with column `j` of `right`.
pub fn matrix(left: &Vec<Vec<i64>>, right: &Vec<Vec<i64>>) -> (r: Vec<Vec<i64>>)
    requires
        1 <= right@.len() <= NMAX,
        forall|i: int|
            0 <= i < right@.len() ==> bounded((#[trigger] right@[i])@) && right@[i]@.len()
                == right@[0]@.len(),
        forall|i: int|
            0 <= i < left@.len() ==> bounded((#[trigger] left@[i])@) && left@[i]@.len()
                == right@.len(),
        forall|i: int, j: int|
            0 <= i < left@.len() && 0 <= j < right@[0]@.len() ==> i64::MIN <= #[trigger] sdiv(
                dot(left@[i]@, col(right@, j)),
                SCALE as int,
            ) <= i64::MAX,
    ensures
        r@.len() == left@.len(),
        forall|i: int| 0 <= i < r@.len() ==> (#[trigger] r@[i])@.len() == right@[0]@.len(),
        forall|i: int, j: int|
            0 <= i < r@.len() && 0 <= j < r@[i]@.len() ==> #[trigger] r@[i]@[j] == sdiv(
                dot(left@[i]@, col(right@, j)),
                SCALE as int,
            ),
{
    let tr = t(right);
    proof {
        assert forall|j: int| 0 <= j < tr@.len() implies (#[trigger] tr@[j])@ == col(right@, j)
            && bounded(tr@[j]@) by {
            assert(tr@[j]@ =~= col(right@, j));
            assert forall|u: int| 0 <= u < tr@[j]@.len() implies -crate::fixed::VMAX
                <= #[trigger] tr@[j]@[u] <= crate::fixed::VMAX by {
                assert(tr@[j]@[u] == right@[u]@[j]);
            }
        }
    }
    let n = left.len();
    let m = tr.len();
    let mut out: Vec<Vec<i64>> = Vec::new();
    let mut i: usize = 0;
    while i < n
        invariant
            0 <= i <= n,
            n == left@.len(),
            m == tr@.len() == right@[0]@.len(),
            1 <= right@.len() <= NMAX,
            forall|j: int|
                0 <= j < tr@.len() ==> (#[trigger] tr@[j])@ == col(right@, j) && bounded(tr@[j]@)
                    && tr@[j]@.len() == right@.len(),
            forall|k: int|
                0 <= k < left@.len() ==> bounded((#[trigger] left@[k])@) && left@[k]@.len()
                    == right@.len(),
            forall|k: int, j: int|
                0 <= k < left@.len() && 0 <= j < right@[0]@.len() ==> i64::MIN <= #[trigger] sdiv(
                    dot(left@[k]@, col(right@, j)),
                    SCALE as int,
                ) <= i64::MAX,
            out@.len() == i,
            forall|k: int| 0 <= k < i ==> (#[trigger] out@[k])@.len() == right@[0]@.len(),
            forall|k: int, j: int|
                0 <= k < i && 0 <= j < out@[k]@.len() ==> #[trigger] out@[k]@[j] == sdiv(
                    dot(left@[k]@, col(right@, j)),
                    SCALE as int,
                ),
        decreases n - i,
    {
        let mut row: Vec<i64> = Vec::new();
        let mut j: usize = 0;
        while j < m
            invariant
                0 <= j <= m,
                i < n,
                n == left@.len(),
                m == tr@.len() == right@[0]@.len(),
                1 <= right@.len() <= NMAX,
                forall|k: int|
                    0 <= k < tr@.len() ==> (#[trigger] tr@[k])@ == col(right@, k) && bounded(
                        tr@[k]@,
                    ) && tr@[k]@.len() == right@.len(),
                bounded(left@[i as int]@),
                left@[i as int]@.len() == right@.len(),
                forall|k: int|
                    0 <= k < right@[0]@.len() ==> i64::MIN <= #[trigger] sdiv(
                        dot(left@[i as int]@, col(right@, k)),
                        SCALE as int,
                    ) <= i64::MAX,
                row@.len() == j,
                forall|k: int|
                    0 <= k < j ==> #[trigger] row@[k] == sdiv(
                        dot(left@[i as int]@, col(right@, k)),
                        SCALE as int,
                    ),
            decreases m - j,
        {
            let v = vectors(&left[i], &tr[j]);
            row.push(v);
            j = j + 1;
        }
        out.push(row);
        i = i + 1;
    }
    out
}

} // verus!
