//! Elementwise addition of vectors and of a vector to a matrix.

use vstd::prelude::*;

use crate::fixed::{bounded, VMAX};

verus! {

/// The elementwise sum of two equally long rows of well-formed values.
/// Unequal lengths are a contract violation, never a broadcast.
pub fn vectors(left: &Vec<i64>, right: &Vec<i64>) -> (r: Vec<i64>)
    requires
        left@.len() == right@.len(),
        bounded(left@),
        bounded(right@),
    ensures
        r@.len() == left@.len(),
        forall|i: int| 0 <= i < r@.len() ==> #[trigger] r@[i] == left@[i] + right@[i],
{
    let n = left.len();
    let mut out: Vec<i64> = Vec::new();
    let mut i: usize = 0;
    while i < n
        invariant
            0 <= i <= n,
            n == left@.len() == right@.len(),
            bounded(left@),
            bounded(right@),
            out@.len() == i,
            forall|k: int| 0 <= k < i ==> #[trigger] out@[k] == left@[k] + right@[k],
        decreases n - i,
    {
        out.push(left[i] + right[i]);
        i = i + 1;
    }
    out
}

/// A vector added to a matrix. With `add_to_row`, entry `i` of the vector
/// is added to every value of row `i` (one vector entry per row);
/// otherwise the vector is added elementwise to every row (one vector
/// entry per column). The matching lengths are a contract, not a check.
pub fn matrix_vector(left: &Vec<Vec<i64>>, right: &Vec<i64>, add_to_row: bool) -> (r: Vec<
    Vec<i64>,
>)
    requires
        forall|i: int| 0 <= i < left@.len() ==> bounded((#[trigger] left@[i])@),
        bounded(right@),
        add_to_row ==> left@.len() == right@.len(),
        !add_to_row ==> forall|i: int|
            0 <= i < left@.len() ==> (#[trigger] left@[i])@.len() == right@.len(),
    ensures
        r@.len() == left@.len(),
        forall|i: int| 0 <= i < r@.len() ==> (#[trigger] r@[i])@.len() == left@[i]@.len(),
        add_to_row ==> forall|i: int, j: int|
            0 <= i < r@.len() && 0 <= j < r@[i]@.len() ==> #[trigger] r@[i]@[j] == left@[i]@[j]
                + right@[i],
        !add_to_row ==> forall|i: int, j: int|
            0 <= i < r@.len() && 0 <= j < r@[i]@.len() ==> #[trigger] r@[i]@[j] == left@[i]@[j]
                + right@[j],
{
    let n = left.len();
    let mut out: Vec<Vec<i64>> = Vec::new();
    let mut i: usize = 0;
    while i < n
        invariant
            0 <= i <= n,
            n == left@.len(),
            forall|k: int| 0 <= k < left@.len() ==> bounded((#[trigger] left@[k])@),
            bounded(right@),
            add_to_row ==> left@.len() == right@.len(),
            !add_to_row ==> forall|k: int|
                0 <= k < left@.len() ==> (#[trigger] left@[k])@.len() == right@.len(),
            out@.len() == i,
            forall|k: int| 0 <= k < i ==> (#[trigger] out@[k])@.len() == left@[k]@.len(),
            add_to_row ==> forall|k: int, j: int|
                0 <= k < i && 0 <= j < out@[k]@.len() ==> #[trigger] out@[k]@[j] == left@[k]@[j]
                    + right@[k],
            !add_to_row ==> forall|k: int, j: int|
                0 <= k < i && 0 <= j < out@[k]@.len() ==> #[trigger] out@[k]@[j] == left@[k]@[j]
                    + right@[j],
        decreases n - i,
    {
        let m = left[i].len();
        let mut row: Vec<i64> = Vec::new();
        let mut j: usize = 0;
        while j < m
            invariant
                0 <= j <= m,
                i < n,
                n == left@.len(),
                m == left@[i as int]@.len(),
                bounded(left@[i as int]@),
                bounded(right@),
                add_to_row ==> left@.len() == right@.len(),
                !add_to_row ==> left@[i as int]@.len() == right@.len(),
                row@.len() == j,
                add_to_row ==> forall|k: int|
                    0 <= k < j ==> #[trigger] row@[k] == left@[i as int]@[k] + right@[i as int],
                !add_to_row ==> forall|k: int|
                    0 <= k < j ==> #[trigger] row@[k] == left@[i as int]@[k] + right@[k],
            decreases m - j,
        {
            if add_to_row {
                row.push(left[i][j] + right[i]);
            } else {
                row.push(left[i][j] + right[j]);
            }
            j = j + 1;
        }
        out.push(row);
        i = i + 1;
    }
    out
}

} // verus!
