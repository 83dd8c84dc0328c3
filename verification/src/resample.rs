//! Fitting a decoded image to the shape of the frame: a place that the
//! image has keeps its sample, and a place outside the image gets zero.

use vstd::arithmetic::div_mod::lemma_fundamental_div_mod_converse;
use vstd::prelude::*;

verus! {

/// The sample at place `k` of the fitted raster, whose rows are `columns`
/// long: that of the same row and column of the image, or zero where the
/// image has no such place.
pub open spec fn fitted_sample(samples: Seq<u8>, native: [usize; 2], columns: int, k: int) -> u8 {
    let row = k / columns;
    let column = k % columns;
    if row < native[0] && column < native[1] {
        samples[row * native[1] + column]
    } else {
        0
    }
}

/// Fits the samples of an image of shape `native`, held row by row, to the
/// shape `target`.
pub fn fit_to_shape(samples: &Vec<u8>, native: [usize; 2], target: [usize; 2]) -> (fitted: Vec<u8>)
    requires
        samples@.len() == native[0] * native[1],
        target[0] * target[1] <= usize::MAX,
    ensures
        fitted@.len() == target[0] * target[1],
        forall|k: int|
            0 <= k < fitted@.len() ==> #[trigger] fitted@[k] == fitted_sample(
                samples@,
                native,
                target[1] as int,
                k,
            ),
{
    let rows: usize = target[0];
    let columns: usize = target[1];
    let total: usize = samples.len();
    let mut fitted: Vec<u8> = Vec::new();
    let mut row: usize = 0;
    while row < rows
        invariant
            rows == target[0],
            columns == target[1],
            total == samples@.len(),
            total == native[0] * native[1],
            rows * columns <= usize::MAX,
            row <= rows,
            fitted@.len() == row * columns,
            forall|k: int|
                0 <= k < fitted@.len() ==> #[trigger] fitted@[k] == fitted_sample(
                    samples@,
                    native,
                    columns as int,
                    k,
                ),
        decreases rows - row,
    {
        let mut column: usize = 0;
        while column < columns
            invariant
                rows == target[0],
                columns == target[1],
                total == samples@.len(),
                total == native[0] * native[1],
                rows * columns <= usize::MAX,
                row < rows,
                column <= columns,
                fitted@.len() == row * columns + column,
                forall|k: int|
                    0 <= k < fitted@.len() ==> #[trigger] fitted@[k] == fitted_sample(
                        samples@,
                        native,
                        columns as int,
                        k,
                    ),
            decreases columns - column,
        {
            proof {
                lemma_fundamental_div_mod_converse(
                    row * columns + column,
                    columns as int,
                    row as int,
                    column as int,
                );
                if row < native[0] && column < native[1] {
                    assert(0 <= row * native[1] && row * native[1] + column < native[0]
                        * native[1]) by (nonlinear_arith)
                        requires
                            0 <= row < native[0],
                            0 <= column < native[1],
                    ;
                }
            }
            let sample: u8 = if row < native[0] && column < native[1] {
                samples[row * native[1] + column]
            } else {
                0
            };
            fitted.push(sample);
            column += 1;
        }
        proof {
            assert(row * columns + columns == (row + 1) * columns) by (nonlinear_arith);
        }
        row += 1;
    }
    fitted
}

} // verus!
