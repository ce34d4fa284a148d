//! The order in which the renderer visits and stores pixels.
//!
//! Pixels are named (row, column). The rendered colors form one buffer in
//! row-major order: position `k` holds the pixel at row `k / width`, column
//! `k % width`, whatever order the per-pixel work finished in.
use itertools::Itertools;
use vstd::prelude::*;

verus! {

/// A bound on the number of pixels under which a buffer of (row, column)
/// pairs stays within `isize::MAX` bytes on every target (2^27 pixels).
pub const MAX_PIXELS: usize = 0x800_0000;

/// The pixel stored at position `k` of a row-major buffer `width` pixels wide.
pub open spec fn pixel_at(width: usize, k: int) -> (usize, usize)
    recommends
        width > 0,
{
    ((k / width as int) as usize, (k % width as int) as usize)
}

/// Every pixel of a `width` by `height` image, in row-major order.
pub open spec fn row_major(width: usize, height: usize) -> Seq<(usize, usize)> {
    Seq::new((width * height) as nat, |k: int| pixel_at(width, k))
}

/// Relies on `Itertools::cartesian_product`: for each item of the first range
/// in turn, every item of the second range, in order.
#[verifier::external_body]
fn product_of_ranges(rows: usize, columns: usize) -> (r: Vec<(usize, usize)>)
    requires
        rows * columns <= MAX_PIXELS,
    ensures
        r@.len() == rows * columns,
        forall|k: int| 0 <= k < r@.len() ==> #[trigger] r@[k] == pixel_at(columns, k),
{
    (0..rows).cartesian_product(0..columns).collect()
}

/// The pixels of a `width` by `height` image, as the renderer visits them.
pub fn pixel_order(width: usize, height: usize) -> (r: Vec<(usize, usize)>)
    requires
        width * height <= MAX_PIXELS,
    ensures
        r@ == row_major(width, height),
{
    let r = product_of_ranges(height, width);
    assert(r@ =~= row_major(width, height)) by {
        assert(height * width == width * height) by (nonlinear_arith);
    }
    r
}

/// The row-major order stores the pixel at (row, column) at position
/// `row * width + column`, and that position holds no other pixel.
pub proof fn lemma_row_major_position(width: usize, height: usize, row: usize, column: usize)
    requires
        row < height,
        column < width,
    ensures
        row * width + column < width * height,
        row_major(width, height)[row * width + column] == (row, column),
        forall|k: int|
            0 <= k < width * height && #[trigger] row_major(width, height)[k] == (row, column)
                ==> k == row * width + column,
{
    let k = row * width + column;
    assert(k < width * height) by (nonlinear_arith)
        requires
            row < height,
            column < width,
            k == row * width + column,
    ;
    assert(k / width as int == row && k % width as int == column) by (nonlinear_arith)
        requires
            column < width,
            k == row * width + column,
    ;
    assert forall|m: int|
        0 <= m < width * height && #[trigger] row_major(width, height)[m] == (row, column)
            implies m == k by {
        assert(width > 0);
        assert(0 <= m / (width as int) < height) by (nonlinear_arith)
            requires
                0 <= m < width * height,
                width > 0,
        ;
        assert(m / width as int == row && m % width as int == column);
        assert(m == (m / width as int) * width + m % width as int) by (nonlinear_arith)
            requires
                width > 0,
        ;
    }
}

} // verus!
