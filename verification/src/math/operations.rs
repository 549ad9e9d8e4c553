//! Vector and matrix operations.

use vstd::prelude::*;

pub mod add;
pub mod dot;

verus! {

/// The transpose of a non-empty rectangular matrix: entry `(i, j)` of the
/// result is entry `(j, i)` of the input.
pub fn t(original: &Vec<Vec<i64>>) -> (r: Vec<Vec<i64>>)
    requires
        original@.len() >= 1,
        forall|i: int|
            0 <= i < original@.len() ==> (#[trigger] original@[i])@.len() == original@[0]@.len(),
    ensures
        r@.len() == original@[0]@.len(),
        forall|i: int| 0 <= i < r@.len() ==> (#[trigger] r@[i])@.len() == original@.len(),
        forall|i: int, j: int|
            0 <= i < r@.len() && 0 <= j < original@.len() ==> #[trigger] r@[i]@[j]
                == original@[j]@[i],
{
    let width = original[0].len();
    let height = original.len();
    let mut out: Vec<Vec<i64>> = Vec::new();
    let mut i: usize = 0;
    while i < width
        invariant
            0 <= i <= width,
            width == original@[0]@.len(),
            height == original@.len() >= 1,
            forall|k: int|
                0 <= k < original@.len() ==> (#[trigger] original@[k])@.len()
                    == original@[0]@.len(),
            out@.len() == i,
            forall|k: int| 0 <= k < i ==> (#[trigger] out@[k])@.len() == height,
            forall|k: int, j: int|
                0 <= k < i && 0 <= j < height ==> #[trigger] out@[k]@[j] == original@[j]@[k],
        decreases width - i,
    {
        let mut row: Vec<i64> = Vec::new();
        let mut j: usize = 0;
        while j < height
            invariant
                0 <= j <= height,
                i < width,
                width == original@[0]@.len(),
                height == original@.len(),
                forall|k: int|
                    0 <= k < original@.len() ==> (#[trigger] original@[k])@.len()
                        == original@[0]@.len(),
                row@.len() == j,
                forall|k: int| 0 <= k < j ==> #[trigger] row@[k] == original@[k]@[i as int],
            decreases height - j,
        {
            row.push(original[j][i]);
            j = j + 1;
        }
        out.push(row);
        i = i + 1;
    }
    out
}

} // verus!
