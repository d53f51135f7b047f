//! Row-major indexing facts shared by the canvas and the blur.

use vstd::prelude::*;

verus! {

pub(crate) proof fn lemma_index_bounds(w: int, h: int, x: int, y: int)
    requires
        0 <= x < w,
        0 <= y < h,
    ensures
        0 <= y * w + x < w * h,
{
    assert(0 <= y * w + x < w * h) by (nonlinear_arith)
        requires
            0 <= x < w,
            0 <= y < h,
    ;
}

pub(crate) proof fn lemma_index_injective(w: int, x1: int, y1: int, x2: int, y2: int)
    requires
        0 <= x1 < w,
        0 <= x2 < w,
        0 <= y1,
        0 <= y2,
        y1 * w + x1 == y2 * w + x2,
    ensures
        x1 == x2,
        y1 == y2,
{
    if y1 < y2 {
        assert(y2 * w >= y1 * w + w) by (nonlinear_arith)
            requires
                y1 < y2,
                0 < w,
        ;
    } else if y2 < y1 {
        assert(y1 * w >= y2 * w + w) by (nonlinear_arith)
            requires
                y2 < y1,
                0 < w,
        ;
    }
}

/// Cells of an earlier row come before every cell of a later row.
pub(crate) proof fn lemma_rows_ordered(w: int, r1: int, c1: int, r2: int, c2: int)
    requires
        0 <= c1 < w,
        0 <= c2,
        0 <= r1 < r2,
    ensures
        r1 * w + c1 < r2 * w + c2,
{
    assert(r1 * w + w <= r2 * w) by (nonlinear_arith)
        requires
            r1 < r2,
            0 < w,
    ;
}

} // verus!
