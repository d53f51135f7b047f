//! The soft panel shadow's blur: a one-dimensional box blur with a sliding window,
//! applied along rows and along columns of an 8-bit mask. Three rounds approximate
//! a Gaussian.

use vstd::prelude::*;

use crate::grid::{lemma_index_bounds, lemma_index_injective, lemma_rows_ordered};

verus! {

/// Sum of `s[lo..hi]`.
pub open spec fn range_sum(s: Seq<u8>, lo: int, hi: int) -> int
    decreases hi - lo,
{
    if hi <= lo {
        0
    } else {
        range_sum(s, lo, hi - 1) + s[hi - 1]
    }
}

pub open spec fn max_int(a: int, b: int) -> int {
    if a >= b {
        a
    } else {
        b
    }
}

pub open spec fn min_int(a: int, b: int) -> int {
    if a <= b {
        a
    } else {
        b
    }
}

/// Sum over the window `[i - radius, i + radius]`, clipped to the line (outside counts as 0).
pub open spec fn window_sum(s: Seq<u8>, radius: int, i: int) -> int {
    range_sum(s, max_int(0, i - radius), min_int(s.len() as int, i + radius + 1))
}

/// One-dimensional box blur with window `2r + 1`, values outside the line counted as 0,
/// each mean rounded to nearest.
pub open spec fn box_blur(s: Seq<u8>, radius: int) -> Seq<u8> {
    Seq::new(
        s.len(),
        |i: int| ((window_sum(s, radius, i) + radius) / (2 * radius + 1)) as u8,
    )
}

/// The window `2r + 1` fits a `u32` and the farthest index the sliding window reaches
/// on a line of `n` values fits a `usize`. (The running sum is kept in `u64`, where
/// any window of bytes fits.)
pub open spec fn blur_fits(n: int, radius: int) -> bool {
    &&& 2 * radius + 1 <= u32::MAX
    &&& n + radius + 1 <= usize::MAX
}

/// Whether a line of `n` values can be blurred with `radius` (see [`blur_fits`]).
pub fn blur_fits_line(n: usize, radius: usize) -> (r: bool)
    ensures
        r == blur_fits(n as int, radius as int),
{
    let n = n as u128;
    let radius = radius as u128;
    2 * radius + 1 <= u32::MAX as u128 && n + radius + 1 <= usize::MAX as u128
}

proof fn lemma_range_sum_bounds(s: Seq<u8>, lo: int, hi: int)
    requires
        0 <= lo,
        hi <= s.len(),
    ensures
        0 <= range_sum(s, lo, hi),
        lo <= hi ==> range_sum(s, lo, hi) <= 255 * (hi - lo),
    decreases hi - lo,
{
    if hi > lo {
        lemma_range_sum_bounds(s, lo, hi - 1);
    }
}

proof fn lemma_range_sum_drop_first(s: Seq<u8>, lo: int, hi: int)
    requires
        0 <= lo < hi <= s.len(),
    ensures
        range_sum(s, lo + 1, hi) == range_sum(s, lo, hi) - s[lo],
    decreases hi - lo,
{
    assert(range_sum(s, lo, lo) == 0);
    assert(range_sum(s, lo + 1, lo + 1) == 0);
    if hi > lo + 1 {
        lemma_range_sum_drop_first(s, lo, hi - 1);
    }
}

proof fn lemma_range_sum_max(s: Seq<u8>, lo: int, hi: int, m: int)
    requires
        0 <= lo <= hi <= s.len(),
        forall|j: int| lo <= j < hi ==> s[j] <= m,
    ensures
        range_sum(s, lo, hi) <= m * (hi - lo),
    decreases hi - lo,
{
    if hi > lo {
        lemma_range_sum_max(s, lo, hi - 1, m);
        assert(s[hi - 1] <= m);
        assert(m * (hi - 1 - lo) + m == m * (hi - lo)) by (nonlinear_arith);
    } else {
        assert(m * (hi - lo) == 0) by (nonlinear_arith)
            requires
                hi == lo,
        ;
    }
}

/// Each blurred value is the sum over the `2r + 1` positions around it, those off the
/// line counting as zero, divided by `2r + 1` (never by the shorter clipped count) and
/// rounded to nearest.
pub proof fn lemma_box_blur_mean(s: Seq<u8>, radius: int, i: int)
    requires
        0 <= radius,
        0 <= i < s.len(),
    ensures
        ({
            let lo = if i - radius < 0 {
                0
            } else {
                i - radius
            };
            let hi = if i + radius + 1 > s.len() {
                s.len() as int
            } else {
                i + radius + 1
            };
            let total = range_sum(s, lo, hi);
            let w = 2 * radius + 1;
            &&& box_blur(s, radius)[i] * w <= total + radius
            &&& total + radius < (box_blur(s, radius)[i] + 1) * w
        }),
{
    let lo = max_int(0, i - radius);
    let hi = min_int(s.len() as int, i + radius + 1);
    let w = 2 * radius + 1;
    let total = window_sum(s, radius, i);
    lemma_range_sum_bounds(s, lo, hi);
    assert(total <= 255 * w) by {
        lemma_range_sum_bounds(s, lo, hi);
        assert(255 * (hi - lo) <= 255 * w) by (nonlinear_arith)
            requires
                hi - lo <= w,
        ;
    }
    let q = (total + radius) / w;
    assert(q * w <= total + radius < (q + 1) * w) by (nonlinear_arith)
        requires
            w > 0,
            q == (total + radius) / w,
            total + radius >= 0,
    ;
    assert(0 <= q <= 255) by (nonlinear_arith)
        requires
            w > 0,
            q == (total + radius) / w,
            0 <= total <= 255 * w,
            radius < w,
            0 <= radius,
    ;
}

/// A box blur never makes any value brighter than the brightest value of the line.
pub proof fn lemma_box_blur_bounded(s: Seq<u8>, radius: int, m: int, i: int)
    requires
        0 <= radius,
        0 <= i < s.len(),
        forall|j: int| 0 <= j < s.len() ==> s[j] <= m,
        m <= 255,
    ensures
        box_blur(s, radius)[i] <= m,
{
    let lo = max_int(0, i - radius);
    let hi = min_int(s.len() as int, i + radius + 1);
    let w = 2 * radius + 1;
    lemma_range_sum_bounds(s, lo, hi);
    if m < 0 {
        assert(s[i] <= m);
    } else {
        lemma_range_sum_max(s, lo, hi, m);
        assert(m * (hi - lo) <= m * w) by (nonlinear_arith)
            requires
                0 <= m,
                hi - lo <= w,
        ;
        let total = window_sum(s, radius, i);
        assert((total + radius) / w <= m) by (nonlinear_arith)
            requires
                0 <= total <= m * w,
                w == 2 * radius + 1,
                0 <= radius,
        ;
    }
}

/// One-dimensional box blur, window `2r + 1`, outside the line counted as 0; a
/// sliding window keeps it linear in the length.
pub fn box_blur_line(src: &[u8], dst: &mut [u8], radius: usize)
    requires
        old(dst)@.len() >= src@.len(),
        blur_fits(src@.len() as int, radius as int),
    ensures
        final(dst)@.len() == old(dst)@.len(),
        final(dst)@.subrange(0, src@.len() as int) == box_blur(src@, radius as int),
        final(dst)@.subrange(src@.len() as int, old(dst)@.len() as int) == old(dst)@.subrange(
            src@.len() as int,
            old(dst)@.len() as int,
        ),
{
    let n = src.len();
    let window = (2 * radius + 1) as u64;
    let ghost s = src@;
    let ghost r = radius as int;
    let mut sum: u64 = 0;
    let mut j: usize = 0;
    while j < n && j < radius + 1
        invariant
            j <= n,
            j <= radius + 1,
            n == s.len(),
            src@ == s,
            r == radius,
            blur_fits(n as int, r),
            sum == range_sum(s, 0, j as int),
        decreases n - j,
    {
        proof {
            lemma_range_sum_bounds(s, 0, j as int + 1);
            assert(255 * (j as int + 1) <= 255 * min_int(n as int, 2 * r + 2)) by (nonlinear_arith)
                requires
                    j as int + 1 <= min_int(n as int, 2 * r + 2),
            ;
        }
        sum = sum + src[j] as u64;
        j += 1;
    }
    let mut i: usize = 0;
    while i < n
        invariant
            i <= n,
            n == s.len(),
            src@ == s,
            r == radius,
            window == 2 * r + 1,
            blur_fits(n as int, r),
            dst@.len() == old(dst)@.len(),
            dst@.len() >= n,
            sum == range_sum(s, max_int(0, i - r), min_int(n as int, i + r + 1)),
            forall|k: int| 0 <= k < i ==> #[trigger] dst@[k] == box_blur(s, r)[k],
            forall|k: int| n <= k < dst@.len() ==> #[trigger] dst@[k] == old(dst)@[k],
        decreases n - i,
    {
        let ghost lo = max_int(0, i - r);
        let ghost hi = min_int(n as int, i + r + 1);
        proof {
            lemma_range_sum_bounds(s, lo, hi);
            assert(255 * (hi - lo) <= 255 * min_int(n as int, 2 * r + 2)) by (nonlinear_arith)
                requires
                    hi - lo <= min_int(n as int, 2 * r + 2),
            ;
        }
        dst[i] = ((sum + window / 2) / window) as u8;
        if i + radius + 1 < n {
            proof {
                lemma_range_sum_bounds(s, lo, hi + 1);
                assert(255 * (hi + 1 - lo) <= 255 * min_int(n as int, 2 * r + 2)) by (nonlinear_arith)
                    requires
                        hi + 1 - lo <= min_int(n as int, 2 * r + 2),
                ;
            }
            sum += src[i + radius + 1] as u64;
        }
        if i >= radius {
            proof {
                let hi2 = min_int(n as int, i + r + 2);
                lemma_range_sum_drop_first(s, lo, hi2);
                lemma_range_sum_bounds(s, lo + 1, hi2);
                assert(sum == range_sum(s, lo, hi2));
            }
            sum -= src[i - radius] as u64;
        }
        i += 1;
    }
    proof {
        assert(dst@.subrange(0, n as int) =~= box_blur(s, r));
        assert(dst@.subrange(n as int, old(dst)@.len() as int) =~= old(dst)@.subrange(
            n as int,
            old(dst)@.len() as int,
        ));
    }
}

/// Row `row` of a `width`-wide row-major grid.
pub open spec fn grid_row(data: Seq<u8>, width: int, row: int) -> Seq<u8> {
    data.subrange(row * width, row * width + width)
}

/// Column `col` of a `width` x `height` row-major grid.
pub open spec fn grid_column(data: Seq<u8>, width: int, height: int, col: int) -> Seq<u8> {
    Seq::new(height as nat, |row: int| data[row * width + col])
}

/// Box-blurs every row of the `width` x `height` mask at the front of `data`.
pub fn box_blur_horizontal(data: &mut [u8], width: usize, height: usize, radius: usize)
    requires
        width as int * height as int <= old(data)@.len(),
        blur_fits(width as int, radius as int),
    ensures
        final(data)@.len() == old(data)@.len(),
        forall|row: int, col: int|
            0 <= row < height && 0 <= col < width ==> #[trigger] final(data)@[row * width + col]
                == box_blur(grid_row(old(data)@, width as int, row), radius as int)[col],
        forall|k: int|
            width * height <= k < old(data)@.len() ==> #[trigger] final(data)@[k] == old(data)@[k],
{
    let ghost start = data@;
    let total = data.len();
    let mut row_buf = vec![0u8; width];
    let mut line = vec![0u8; width];
    let mut row: usize = 0;
    while row < height
        invariant
            row <= height,
            width as int * height as int <= start.len(),
            blur_fits(width as int, radius as int),
            data@.len() == start.len(),
            start.len() == total,
            row_buf@.len() == width,
            line@.len() == width,
            forall|r: int, c: int|
                0 <= r < row && 0 <= c < width ==> #[trigger] data@[r * width + c] == box_blur(
                    grid_row(start, width as int, r),
                    radius as int,
                )[c],
            forall|k: int| row * width <= k < start.len() ==> #[trigger] data@[k] == start[k],
        decreases height - row,
    {
        proof {
            assert((row as int + 1) * width as int <= width as int * height as int)
                by (nonlinear_arith)
                requires
                    row < height,
            ;
        }
        proof {
            assert(row as int * width as int + width as int == (row as int + 1) * width as int)
                by (nonlinear_arith);
        }
        let base = row * width;
        let mut c: usize = 0;
        while c < width
            invariant
                c <= width,
                base == row * width,
                base + width <= data@.len(),
                data@.len() == total,
                line@.len() == width,
                forall|j: int| 0 <= j < c ==> #[trigger] line@[j] == data@[base + j],
            decreases width - c,
        {
            line[c] = data[base + c];
            c += 1;
        }
        proof {
            assert(line@ =~= grid_row(start, width as int, row as int));
        }
        box_blur_line(&line, &mut row_buf, radius);
        proof {
            assert(row_buf@ =~= row_buf@.subrange(0, width as int));
        }
        let ghost before = data@;
        let mut c: usize = 0;
        while c < width
            invariant
                c <= width,
                base == row * width,
                base + width <= data@.len(),
                data@.len() == total,
                data@.len() == before.len(),
                row_buf@.len() == width,
                row_buf@ == box_blur(grid_row(start, width as int, row as int), radius as int),
                forall|j: int| 0 <= j < c ==> #[trigger] data@[base + j] == row_buf@[j],
                forall|k: int|
                    0 <= k < data@.len() && !(base <= k < base + c) ==> #[trigger] data@[k]
                        == before[k],
            decreases width - c,
        {
            data[base + c] = row_buf[c];
            c += 1;
        }
        proof {
            assert forall|r: int, cc: int|
                0 <= r < row + 1 && 0 <= cc < width implies #[trigger] data@[r * width + cc]
                == box_blur(grid_row(start, width as int, r), radius as int)[cc] by {
                if r < row {
                    lemma_rows_ordered(width as int, r, cc, row as int, 0);
                } else {
                    assert(data@[base + cc] == row_buf@[cc]);
                }
            }
            assert forall|k: int| (row + 1) * width <= k < start.len() implies #[trigger] data@[k]
                == start[k] by {
                assert((row as int + 1) * width as int == base + width) by (nonlinear_arith)
                    requires
                        base == row * width,
                ;
            }
        }
        row += 1;
    }
    proof {
        assert(row as int * width as int == width as int * height as int) by (nonlinear_arith)
            requires
                row == height,
        ;
    }
}

/// Box-blurs every column of the `width` x `height` mask at the front of `data`.
pub fn box_blur_vertical(data: &mut [u8], width: usize, height: usize, radius: usize)
    requires
        width as int * height as int <= old(data)@.len(),
        blur_fits(height as int, radius as int),
    ensures
        final(data)@.len() == old(data)@.len(),
        forall|row: int, col: int|
            0 <= row < height && 0 <= col < width ==> #[trigger] final(data)@[row * width + col]
                == box_blur(grid_column(old(data)@, width as int, height as int, col), radius as int)[row],
        forall|k: int|
            width * height <= k < old(data)@.len() ==> #[trigger] final(data)@[k] == old(data)@[k],
{
    let ghost start = data@;
    let total = data.len();
    let mut column = vec![0u8; height];
    let mut blurred = vec![0u8; height];
    let mut col: usize = 0;
    while col < width
        invariant
            col <= width,
            width as int * height as int <= start.len(),
            blur_fits(height as int, radius as int),
            data@.len() == start.len(),
            start.len() == total,
            column@.len() == height,
            blurred@.len() == height,
            forall|r: int, c: int|
                0 <= r < height && 0 <= c < col ==> #[trigger] data@[r * width + c] == box_blur(
                    grid_column(start, width as int, height as int, c),
                    radius as int,
                )[r],
            forall|r: int, c: int|
                0 <= r < height && col <= c < width ==> #[trigger] data@[r * width + c] == start[r
                    * width + c],
            forall|k: int| width * height <= k < start.len() ==> #[trigger] data@[k] == start[k],
        decreases width - col,
    {
        let mut row: usize = 0;
        while row < height
            invariant
                row <= height,
                col < width,
                width as int * height as int <= data@.len(),
                data@.len() == total,
                column@.len() == height,
                forall|r: int, c: int|
                    0 <= r < height && col <= c < width ==> #[trigger] data@[r * width + c]
                        == start[r * width + c],
                forall|j: int| 0 <= j < row ==> #[trigger] column@[j] == data@[j * width + col],
            decreases height - row,
        {
            proof {
                lemma_index_bounds(width as int, height as int, col as int, row as int);
            }
            column[row] = data[row * width + col];
            row += 1;
        }
        proof {
            assert(column@ =~= grid_column(start, width as int, height as int, col as int));
        }
        box_blur_line(&column, &mut blurred, radius);
        proof {
            assert(blurred@ =~= blurred@.subrange(0, height as int));
        }
        let ghost before = data@;
        let mut row: usize = 0;
        while row < height
            invariant
                row <= height,
                col < width,
                width as int * height as int <= data@.len(),
                data@.len() == total,
                data@.len() == before.len(),
                blurred@.len() == height,
                blurred@ == box_blur(
                    grid_column(start, width as int, height as int, col as int),
                    radius as int,
                ),
                forall|r: int| 0 <= r < row ==> #[trigger] data@[r * width + col] == blurred@[r],
                forall|r: int, c: int|
                    0 <= r < height && 0 <= c < width && !(c == col && r < row) ==> #[trigger] data@[r
                        * width + c] == before[r * width + c],
                forall|k: int| width * height <= k < data@.len() ==> #[trigger] data@[k] == before[k],
            decreases height - row,
        {
            proof {
                lemma_index_bounds(width as int, height as int, col as int, row as int);
            }
            let ghost idx = row * width + col;
            let ghost prev = data@;
            data[row * width + col] = blurred[row];
            proof {
                assert forall|r: int| 0 <= r < row + 1 implies #[trigger] data@[r * width + col]
                    == blurred@[r] by {
                    lemma_index_bounds(width as int, height as int, col as int, r);
                    if r < row {
                        assert(prev[r * width + col] == blurred@[r]);
                        if r * width + col == idx {
                            lemma_index_injective(width as int, col as int, r, col as int, row as int);
                        }
                    }
                }
                assert forall|r: int, c: int|
                    0 <= r < height && 0 <= c < width && !(c == col && r < row + 1) implies #[trigger] data@[r
                        * width + c] == before[r * width + c] by {
                    lemma_index_bounds(width as int, height as int, c, r);
                    assert(prev[r * width + c] == before[r * width + c]);
                    if r * width + c == idx {
                        lemma_index_injective(width as int, c, r, col as int, row as int);
                    }
                }
            }
            row += 1;
        }
        proof {
            assert forall|r: int, c: int|
                0 <= r < height && 0 <= c < col + 1 implies #[trigger] data@[r * width + c]
                == box_blur(grid_column(start, width as int, height as int, c), radius as int)[r] by {
                if c < col {
                    assert(data@[r * width + c] == before[r * width + c]);
                }
            }
            assert forall|r: int, c: int|
                0 <= r < height && col + 1 <= c < width implies #[trigger] data@[r * width + c]
                == start[r * width + c] by {
                assert(data@[r * width + c] == before[r * width + c]);
            }
        }
        col += 1;
    }
}

/// Every row of the `width` x `height` grid at the front of `data` box-blurred.
pub open spec fn rows_blurred(data: Seq<u8>, width: int, height: int, radius: int) -> Seq<u8> {
    Seq::new(
        data.len(),
        |k: int|
            if k < width * height {
                box_blur(grid_row(data, width, k / width), radius)[k % width]
            } else {
                data[k]
            },
    )
}

/// Every column of the `width` x `height` grid at the front of `data` box-blurred.
pub open spec fn columns_blurred(data: Seq<u8>, width: int, height: int, radius: int) -> Seq<u8> {
    Seq::new(
        data.len(),
        |k: int|
            if k < width * height {
                box_blur(grid_column(data, width, height, k % width), radius)[k / width]
            } else {
                data[k]
            },
    )
}

/// `rounds` rounds of row blur followed by column blur.
pub open spec fn mask_blurred(data: Seq<u8>, width: int, height: int, radius: int, rounds: nat) -> Seq<u8>
    decreases rounds,
{
    if rounds == 0 {
        data
    } else {
        columns_blurred(
            rows_blurred(mask_blurred(data, width, height, radius, (rounds - 1) as nat), width, height, radius),
            width,
            height,
            radius,
        )
    }
}

proof fn lemma_grid_cell(k: int, width: int, height: int)
    requires
        0 < width,
        0 <= k < width * height,
    ensures
        k == (k / width) * width + k % width,
        0 <= k % width < width,
        0 <= k / width < height,
{
    vstd::arithmetic::div_mod::lemma_fundamental_div_mod(k, width);
    vstd::arithmetic::div_mod::lemma_mod_bound(k, width);
    assert(width * (k / width) == (k / width) * width) by (nonlinear_arith);
    if k / width >= height {
        assert((k / width) * width >= height * width) by (nonlinear_arith)
            requires
                k / width >= height,
                0 < width,
        ;
        assert(height * width == width * height) by (nonlinear_arith);
    }
    if k / width < 0 {
        assert((k / width) * width <= -width) by (nonlinear_arith)
            requires
                k / width < 0,
                0 < width,
        ;
    }
}

proof fn lemma_rows_blurred_bounded(data: Seq<u8>, width: int, height: int, radius: int, m: int)
    requires
        0 <= width,
        0 <= height,
        width * height <= data.len(),
        0 <= radius,
        m <= 255,
        forall|j: int| 0 <= j < data.len() ==> data[j] <= m,
    ensures
        forall|j: int|
            0 <= j < data.len() ==> #[trigger] rows_blurred(data, width, height, radius)[j] <= m,
{
    assert forall|k: int| 0 <= k < data.len() implies #[trigger] rows_blurred(
        data,
        width,
        height,
        radius,
    )[k] <= m by {
        if k < width * height {
            lemma_grid_cell(k, width, height);
            let row = k / width;
            assert(row * width + width <= width * height) by (nonlinear_arith)
                requires
                    0 <= row < height,
                    0 < width,
            ;
            let line = grid_row(data, width, row);
            assert forall|j: int| 0 <= j < line.len() implies line[j] <= m by {
                assert(line[j] == data[row * width + j]);
            }
            lemma_box_blur_bounded(line, radius, m, k % width);
        }
    }
}

proof fn lemma_columns_blurred_bounded(data: Seq<u8>, width: int, height: int, radius: int, m: int)
    requires
        0 <= width,
        0 <= height,
        width * height <= data.len(),
        0 <= radius,
        m <= 255,
        forall|j: int| 0 <= j < data.len() ==> data[j] <= m,
    ensures
        forall|j: int|
            0 <= j < data.len() ==> #[trigger] columns_blurred(data, width, height, radius)[j] <= m,
{
    assert forall|k: int| 0 <= k < data.len() implies #[trigger] columns_blurred(
        data,
        width,
        height,
        radius,
    )[k] <= m by {
        if k < width * height {
            lemma_grid_cell(k, width, height);
            let col = k % width;
            let line = grid_column(data, width, height, col);
            assert forall|j: int| 0 <= j < line.len() implies line[j] <= m by {
                lemma_index_bounds(width, height, col, j);
                assert(line[j] == data[j * width + col]);
            }
            lemma_box_blur_bounded(line, radius, m, k / width);
        }
    }
}

/// However many rounds run, the blurred shadow mask is never brighter than the
/// brightest sample of the mask it started from.
pub proof fn lemma_mask_blur_bounded(
    data: Seq<u8>,
    width: int,
    height: int,
    radius: int,
    rounds: nat,
    m: int,
)
    requires
        0 <= width,
        0 <= height,
        width * height <= data.len(),
        0 <= radius,
        m <= 255,
        forall|j: int| 0 <= j < data.len() ==> data[j] <= m,
    ensures
        mask_blurred(data, width, height, radius, rounds).len() == data.len(),
        forall|j: int|
            0 <= j < data.len() ==> #[trigger] mask_blurred(data, width, height, radius, rounds)[j]
                <= m,
    decreases rounds,
{
    if rounds > 0 {
        lemma_mask_blur_bounded(data, width, height, radius, (rounds - 1) as nat, m);
        let before = mask_blurred(data, width, height, radius, (rounds - 1) as nat);
        lemma_rows_blurred_bounded(before, width, height, radius, m);
        let middle = rows_blurred(before, width, height, radius);
        lemma_columns_blurred_bounded(middle, width, height, radius, m);
    }
}

/// The shadow mask's blur: three rounds of row then column box blur, which together
/// approximate a Gaussian.
pub fn blur_mask(mask: &mut [u8], width: usize, height: usize, radius: usize)
    requires
        width as int * height as int <= old(mask)@.len(),
        blur_fits(width as int, radius as int),
        blur_fits(height as int, radius as int),
    ensures
        final(mask)@ == mask_blurred(old(mask)@, width as int, height as int, radius as int, 3),
{
    let ghost start = mask@;
    let mut round: usize = 0;
    while round < 3
        invariant
            round <= 3,
            width as int * height as int <= mask@.len(),
            blur_fits(width as int, radius as int),
            blur_fits(height as int, radius as int),
            mask@ == mask_blurred(start, width as int, height as int, radius as int, round as nat),
        decreases 3 - round,
    {
        let ghost before = mask@;
        box_blur_horizontal(mask, width, height, radius);
        proof {
            if width > 0 {
                assert forall|k: int| 0 <= k < mask@.len() implies #[trigger] mask@[k]
                    == rows_blurred(before, width as int, height as int, radius as int)[k] by {
                    if k < width * height {
                        lemma_grid_cell(k, width as int, height as int);
                        let row = k / width as int;
                        let col = k % width as int;
                        assert(mask@[row * width + col] == box_blur(
                            grid_row(before, width as int, row),
                            radius as int,
                        )[col]);
                    }
                }
            }
            assert(mask@ =~= rows_blurred(before, width as int, height as int, radius as int));
        }
        let ghost middle = mask@;
        box_blur_vertical(mask, width, height, radius);
        proof {
            if width > 0 {
                assert forall|k: int| 0 <= k < mask@.len() implies #[trigger] mask@[k]
                    == columns_blurred(middle, width as int, height as int, radius as int)[k] by {
                    if k < width * height {
                        lemma_grid_cell(k, width as int, height as int);
                        let row = k / width as int;
                        let col = k % width as int;
                        assert(mask@[row * width + col] == box_blur(
                            grid_column(middle, width as int, height as int, col),
                            radius as int,
                        )[row]);
                    }
                }
            }
            assert(mask@ =~= columns_blurred(middle, width as int, height as int, radius as int));
        }
        round += 1;
    }
}

} // verus!
