//! Arithmetic of row-major layouts: the position `y * width + x` of the
//! element in column `x` of row `y`.

use vstd::prelude::*;
use vstd::arithmetic::div_mod::{lemma_fundamental_div_mod, lemma_fundamental_div_mod_converse};

verus! {

/// The position of column `x` in row `y` gives the row back by division
/// and the column by remainder.
pub proof fn lemma_position_splits(x: int, y: int, width: int)
    requires
        0 <= x < width,
        0 <= y,
    ensures
        (y * width + x) / width == y,
        (y * width + x) % width == x,
        0 <= y * width + x,
{
    lemma_fundamental_div_mod_converse(y * width + x, width, y, x);
    assert(0 <= y * width) by (nonlinear_arith)
        requires
            0 <= y,
            0 < width,
    ;
}

/// Every position is that of its own row and column.
pub proof fn lemma_position_joins(i: int, width: int)
    requires
        0 <= i,
        0 < width,
    ensures
        i == (i / width) * width + i % width,
        0 <= i % width < width,
        0 <= i / width,
{
    lemma_fundamental_div_mod(i, width);
    assert((i / width) * width == width * (i / width)) by (nonlinear_arith);
    assert(0 <= i / width) by (nonlinear_arith)
        requires
            0 <= i,
            0 < width,
    ;
}

/// A position inside a grid lies below the number of its elements.
pub proof fn lemma_position_bound(x: int, y: int, width: int, height: int)
    requires
        0 <= x < width,
        0 <= y < height,
    ensures
        0 <= y * width + x < width * height,
        y * width + width <= width * height,
{
    assert(y * width + width <= width * height && 0 <= y * width) by (nonlinear_arith)
        requires
            0 <= y < height,
            0 < width,
    ;
}

/// A position below the number of elements lies in one of the rows.
pub proof fn lemma_position_row(i: int, width: int, height: int)
    requires
        0 <= i < width * height,
        0 < width,
    ensures
        0 <= i / width < height,
        0 <= i % width < width,
{
    lemma_position_joins(i, width);
    let row = i / width;
    assert(row < height) by (nonlinear_arith)
        requires
            row * width <= i,
            i < width * height,
            0 < width,
    ;
}

/// Two positions are equal only if rows and columns are.
pub proof fn lemma_position_unique(x1: int, y1: int, x2: int, y2: int, width: int)
    requires
        0 <= x1 < width,
        0 <= x2 < width,
        0 <= y1,
        0 <= y2,
        y1 * width + x1 == y2 * width + x2,
    ensures
        x1 == x2,
        y1 == y2,
{
    lemma_position_splits(x1, y1, width);
    lemma_position_splits(x2, y2, width);
}

/// The product of two 32-bit numbers fits 64 bits.
pub proof fn lemma_product_fits(a: u32, b: u32)
    ensures
        0 <= a * b <= 0xffff_fffe_0000_0001,
        a * b <= u64::MAX,
{
    assert(0 <= a * b <= 0xffff_ffff * 0xffff_ffff) by (nonlinear_arith)
        requires
            0 <= a <= 0xffff_ffff,
            0 <= b <= 0xffff_ffff,
    ;
}

} // verus!
