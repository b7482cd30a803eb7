//! Integer bookkeeping of the sampling loop.
//!
//! Pixels are visited in row-major order from the top-left, while the
//! vertical view-plane coordinate is measured from the bottom of the image,
//! so the sample of row `i` uses the flipped row index. Both computations
//! are exact and stand here.

use vstd::prelude::*;

verus! {

/// The position of pixel (`row`, `col`) in the row-major pixel stream of an
/// image `w` pixels wide.
pub fn pixel_index(w: u32, row: u32, col: u32) -> (i: usize)
    requires
        col < w,
        w as int * row as int + col as int <= usize::MAX as int,
    ensures
        i == w as int * row as int + col as int,
{
    w as usize * row as usize + col as usize
}

/// The row index measured from the bottom of the image, as the vertical
/// view-plane coordinate of the sample demands: row `0` is the top of the
/// image but the bottom row has vertical coordinate `0`.
pub fn flip_row(h: u32, row: u32) -> (f: u32)
    requires
        row < h,
    ensures
        f == h - 1 - row,
{
    h - 1 - row
}

} // verus!
