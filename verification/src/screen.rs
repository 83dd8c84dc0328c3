//! The presentation buffer: how a computed pattern is laid into the pixels
//! of the screen, four bytes to a pixel.

use vstd::arithmetic::div_mod::lemma_fundamental_div_mod_converse;
use vstd::arithmetic::div_mod::lemma_multiply_divide_lt;
use vstd::prelude::*;

verus! {

/// The place in the pattern of the sample shown at pixel `p` of a screen
/// `width` wide and `height` high. Pixels run row by row over the screen;
/// the pattern holds its samples column by column of the screen.
pub open spec fn sample_index(p: int, width: int, height: int) -> int {
    (p % width) * height + p / width
}

/// The byte `k` of the buffer after a pattern was laid into it: the three
/// colour bytes of a pixel hold its sample, the fourth byte stays.
pub open spec fn pixel_after(
    before: Seq<u8>,
    pattern: Seq<u8>,
    width: int,
    height: int,
    k: int,
) -> u8 {
    if k % 4 == 3 {
        before[k]
    } else {
        pattern[sample_index(k / 4, width, height)]
    }
}

/// The pixel in column `x` and row `y` shows the sample of column `x` and
/// row `y` of the pattern.
pub proof fn lemma_sample_of_place(x: int, y: int, width: int, height: int)
    requires
        0 <= x < width,
        0 <= y < height,
    ensures
        sample_index(y * width + x, width, height) == x * height + y,
        0 <= y * width + x < width * height,
{
    lemma_fundamental_div_mod_converse(y * width + x, width, y, x);
    assert(0 <= y * width + x < width * height) by (nonlinear_arith)
        requires
            0 <= x < width,
            0 <= y < height,
    ;
}

/// Lays a pattern into the pixels of the screen.
pub fn put_pattern(pixels: &mut Vec<u8>, size: (u32, u32), pattern: &Vec<u8>)
    requires
        pattern@.len() == size.0 * size.1,
        old(pixels)@.len() == 4 * (size.0 * size.1),
    ensures
        final(pixels)@.len() == old(pixels)@.len(),
        forall|k: int|
            0 <= k < final(pixels)@.len() ==> #[trigger] final(pixels)@[k] == pixel_after(
                old(pixels)@,
                pattern@,
                size.0 as int,
                size.1 as int,
                k,
            ),
{
    let width: usize = size.0 as usize;
    let height: usize = size.1 as usize;
    let total: usize = pattern.len();
    let bytes: usize = pixels.len();
    let mut p: usize = 0;
    while p < total
        invariant
            width == size.0,
            height == size.1,
            total == pattern@.len(),
            total == width * height,
            bytes == 4 * total,
            pixels@.len() == bytes,
            old(pixels)@.len() == bytes,
            p <= total,
            forall|k: int|
                0 <= k < 4 * p ==> #[trigger] pixels@[k] == pixel_after(
                    old(pixels)@,
                    pattern@,
                    width as int,
                    height as int,
                    k,
                ),
            forall|k: int| 4 * p <= k < bytes ==> #[trigger] pixels@[k] == old(pixels)@[k],
        decreases total - p,
    {
        proof {
            assert(width > 0) by (nonlinear_arith)
                requires
                    p < width * height,
                    p >= 0,
                    width >= 0,
            ;
            lemma_multiply_divide_lt(p as int, width as int, height as int);
            let x = p as int % width as int;
            let y = p as int / width as int;
            assert(0 <= x < width);
            assert(0 <= y) by (nonlinear_arith)
                requires
                    y == p as int / width as int,
                    p >= 0,
                    width > 0,
            ;
            assert(0 <= x * height && x * height + y < width * height) by (nonlinear_arith)
                requires
                    0 <= x < width,
                    0 <= y < height,
            ;
        }
        let x: usize = p % width;
        let y: usize = p / width;
        let sample: u8 = pattern[x * height + y];
        pixels.set(4 * p, sample);
        pixels.set(4 * p + 1, sample);
        pixels.set(4 * p + 2, sample);
        p += 1;
    }
}

} // verus!
