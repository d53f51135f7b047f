//! The bitmap canvas: a tiny-skia pixmap plus per-pixel source-over blending of glyph
//! masks, colour bitmaps and other pixmaps. Coordinates are pixels, origin top left.

use vstd::prelude::*;

use crate::color::{
    lemma_mul8_bounds, mul8, mul_u8, premultiply, premultiply_spec, Color, PremultipliedRgba,
};
use crate::error::RenderError;
use crate::grid::{lemma_index_bounds, lemma_index_injective};
use crate::skia::{
    checked_premultiplied, pixmap_byte, pixmap_bytes, pixmap_dimensions, pixmap_new,
    pixmap_byte_len, pixmap_set_byte, pixmap_size,
};

verus! {

/// Pixel `i` of a premultiplied RGBA byte buffer.
pub open spec fn pixel_of(bytes: Seq<u8>, i: int) -> PremultipliedRgba {
    PremultipliedRgba {
        red: bytes[4 * i],
        green: bytes[4 * i + 1],
        blue: bytes[4 * i + 2],
        alpha: bytes[4 * i + 3],
    }
}

pub open spec fn saturate8(v: int) -> int {
    if v > 255 {
        255
    } else {
        v
    }
}

pub open spec fn min_int(a: int, b: int) -> int {
    if a <= b {
        a
    } else {
        b
    }
}

/// Source-over in 8-bit fixed point: `dst = src + dst * (1 - src.alpha)`, each sum
/// saturated, and each colour channel capped at the resulting alpha.
pub open spec fn source_over(src: PremultipliedRgba, dst: PremultipliedRgba) -> PremultipliedRgba {
    let inverse = 255 - src.alpha;
    let a = saturate8(src.alpha + mul8(dst.alpha as int, inverse));
    PremultipliedRgba {
        red: min_int(saturate8(src.red + mul8(dst.red as int, inverse)), a) as u8,
        green: min_int(saturate8(src.green + mul8(dst.green as int, inverse)), a) as u8,
        blue: min_int(saturate8(src.blue + mul8(dst.blue as int, inverse)), a) as u8,
        alpha: a as u8,
    }
}

/// `old` with `src` blended over it, or unchanged when there is nothing to blend.
pub open spec fn stamped(old: PremultipliedRgba, src: Option<PremultipliedRgba>) -> PremultipliedRgba {
    match src {
        Some(s) => source_over(s, old),
        None => old,
    }
}

/// Blending always yields a valid premultiplied pixel, whatever the destination held.
pub proof fn lemma_source_over_valid(src: PremultipliedRgba, dst: PremultipliedRgba)
    ensures
        source_over(src, dst).is_valid(),
{
    lemma_mul8_bounds(dst.alpha as int, 255 - src.alpha);
    lemma_mul8_bounds(dst.red as int, 255 - src.alpha);
    lemma_mul8_bounds(dst.green as int, 255 - src.alpha);
    lemma_mul8_bounds(dst.blue as int, 255 - src.alpha);
}

/// Blending a fully transparent pixel leaves a valid destination unchanged.
pub proof fn lemma_source_over_transparent(dst: PremultipliedRgba)
    requires
        dst.is_valid(),
    ensures
        source_over(PremultipliedRgba::transparent(), dst) == dst,
{
    lemma_mul8_full(dst.alpha as int);
    lemma_mul8_full(dst.red as int);
    lemma_mul8_full(dst.green as int);
    lemma_mul8_full(dst.blue as int);
}

proof fn lemma_mul8_full(a: int)
    requires
        0 <= a <= 255,
    ensures
        mul8(a, 255) == a,
        mul8(a, 0) == 0,
{
    assert((a * 255 + 127) / 255 == a) by (nonlinear_arith)
        requires
            0 <= a <= 255,
    ;
}

/// Source-over in numbers. The alpha is the source alpha plus the destination alpha
/// scaled by what the source leaves uncovered (`255 - src.alpha` out of 255, rounded
/// to nearest), capped at 255: the destination's coverage is kept, not replaced. Each
/// colour channel is the source channel plus the destination channel scaled the same
/// way, capped at 255 and then at the new alpha.
pub proof fn lemma_source_over_arithmetic(src: PremultipliedRgba, dst: PremultipliedRgba)
    ensures
        ({
            let open = 255 - src.alpha as int;
            let a0 = src.alpha as int + (dst.alpha as int * open + 127) / 255;
            let a = if a0 > 255 {
                255
            } else {
                a0
            };
            let r0 = src.red as int + (dst.red as int * open + 127) / 255;
            let g0 = src.green as int + (dst.green as int * open + 127) / 255;
            let b0 = src.blue as int + (dst.blue as int * open + 127) / 255;
            &&& source_over(src, dst).alpha as int == a
            &&& source_over(src, dst).red as int == if r0 > 255 && a == 255 {
                255
            } else if r0 < a {
                r0
            } else {
                a
            }
            &&& source_over(src, dst).green as int == if g0 > 255 && a == 255 {
                255
            } else if g0 < a {
                g0
            } else {
                a
            }
            &&& source_over(src, dst).blue as int == if b0 > 255 && a == 255 {
                255
            } else if b0 < a {
                b0
            } else {
                a
            }
        }),
        src.alpha == 128 && dst.alpha == 128 ==> source_over(src, dst).alpha == 192,
{
    lemma_mul8_bounds(dst.alpha as int, 255 - src.alpha);
    lemma_mul8_bounds(dst.red as int, 255 - src.alpha);
    lemma_mul8_bounds(dst.green as int, 255 - src.alpha);
    lemma_mul8_bounds(dst.blue as int, 255 - src.alpha);
    assert((128 * 127 + 127) / 255 == 64);
}

/// Blending a fully opaque valid pixel replaces the destination.
pub proof fn lemma_source_over_opaque(src: PremultipliedRgba, dst: PremultipliedRgba)
    requires
        src.is_valid(),
        src.alpha == 255,
    ensures
        source_over(src, dst) == src,
{
    lemma_mul8_full(dst.alpha as int);
    lemma_mul8_full(dst.red as int);
    lemma_mul8_full(dst.green as int);
    lemma_mul8_full(dst.blue as int);
}

fn min_u8(a: u8, b: u8) -> (r: u8)
    ensures
        r == min_int(a as int, b as int),
{
    if a <= b {
        a
    } else {
        b
    }
}


/// Row-major position, inside a `width`-wide layer placed at `(x, y)`, of the layer
/// pixel that lands on canvas pixel `(px, py)`.
pub open spec fn layer_index(x: int, y: int, width: int, px: int, py: int) -> int {
    (py - y) * width + (px - x)
}

/// Whether canvas pixel `(px, py)` falls inside a `width` x `height` layer at `(x, y)`.
pub open spec fn in_layer(x: int, y: int, width: int, height: int, px: int, py: int) -> bool {
    x <= px < x + width && y <= py < y + height
}

/// What an 8-bit coverage mask in `color` puts on canvas pixel `(px, py)`: the colour
/// scaled by the coverage sample under it, or nothing where the sample is zero or the
/// data runs out.
pub open spec fn mask_source(
    x: int,
    y: int,
    width: int,
    height: int,
    data: Seq<u8>,
    color: Color,
    px: int,
    py: int,
) -> Option<PremultipliedRgba> {
    let i = layer_index(x, y, width, px, py);
    if in_layer(x, y, width, height, px, py) && i < data.len() && data[i] != 0 {
        Some(color.premultiplied_spec(data[i]))
    } else {
        None
    }
}

/// What a straight RGBA bitmap puts on canvas pixel `(px, py)`: its pixel there,
/// premultiplied, or nothing where that pixel is fully transparent or missing.
pub open spec fn rgba_source(
    x: int,
    y: int,
    width: int,
    height: int,
    data: Seq<u8>,
    px: int,
    py: int,
) -> Option<PremultipliedRgba> {
    let i = layer_index(x, y, width, px, py);
    if in_layer(x, y, width, height, px, py) && 4 * i + 4 <= data.len() && data[4 * i + 3] != 0 {
        Some(premultiply_spec(data[4 * i], data[4 * i + 1], data[4 * i + 2], data[4 * i + 3]))
    } else {
        None
    }
}

/// What another premultiplied pixmap, `width` pixels wide and holding `bytes`, puts
/// on canvas pixel `(px, py)` when its top-left corner sits at `(x, y)`: its pixel
/// there, unless that pixel is fully transparent or past the end of its data.
pub open spec fn pixmap_source(
    x: int,
    y: int,
    width: int,
    bytes: Seq<u8>,
    px: int,
    py: int,
) -> Option<PremultipliedRgba> {
    let i = layer_index(x, y, width, px, py);
    if x <= px < x + width && y <= py && 4 * i + 4 <= bytes.len() && bytes[4 * i + 3] != 0 {
        Some(pixel_of(bytes, i))
    } else {
        None
    }
}

/// The source kept for canvas pixel `(px, py)` once the layer pixels before row-major
/// position `k` have been stamped.
pub open spec fn upto(
    src: Option<PremultipliedRgba>,
    x: int,
    y: int,
    width: int,
    px: int,
    py: int,
    k: int,
) -> Option<PremultipliedRgba> {
    if layer_index(x, y, width, px, py) < k {
        src
    } else {
        None
    }
}

/// A premultiplied RGBA bitmap.
pub struct Canvas {
    pixmap: tiny_skia::Pixmap,
}

impl Canvas {
    #[verifier::type_invariant]
    spec fn well_formed(self) -> bool {
        let (w, h) = pixmap_size(self.pixmap);
        &&& 0 < w && 0 < h && w as int * 4 <= i32::MAX
        &&& w as int * h as int * 4 <= pixmap_bytes(self.pixmap).len() <= usize::MAX
    }

    pub closed spec fn width_spec(self) -> int {
        pixmap_size(self.pixmap).0 as int
    }

    pub closed spec fn height_spec(self) -> int {
        pixmap_size(self.pixmap).1 as int
    }

    pub closed spec fn bytes(self) -> Seq<u8> {
        pixmap_bytes(self.pixmap)
    }

    pub open spec fn in_bounds(self, x: int, y: int) -> bool {
        0 <= x < self.width_spec() && 0 <= y < self.height_spec()
    }

    /// The pixel at `(x, y)`.
    pub open spec fn pixel(self, x: int, y: int) -> PremultipliedRgba {
        pixel_of(self.bytes(), y * self.width_spec() + x)
    }

    /// Where a single-pixel blend lands: inside the canvas, and only while the height
    /// fits in `i32` (a taller canvas compares every row against a wrapped, negative
    /// height and takes no blend).
    pub open spec fn blendable(self, x: int, y: int) -> bool {
        self.in_bounds(x, y) && self.height_spec() <= i32::MAX
    }

    /// Same size as `other`.
    pub open spec fn same_size(self, other: Canvas) -> bool {
        self.width_spec() == other.width_spec() && self.height_spec() == other.height_spec()
    }

    /// Allocates a transparent canvas; refuses a zero size or one tiny-skia cannot hold.
    pub fn new(width: u32, height: u32) -> (res: Result<Self, RenderError>)
        ensures
            res is Ok <==> (0 < width && 0 < height && width as int * 4 <= i32::MAX
                && width as int * height as int * 4 <= usize::MAX),
            res matches Ok(c) ==> c.width_spec() == width && c.height_spec() == height
                && forall|x: int, y: int|
                c.in_bounds(x, y) ==> #[trigger] c.pixel(x, y) == PremultipliedRgba::transparent(),
            res matches Err(e) ==> e matches RenderError::InvalidSize { width: w, height: h }
                && w == width && h == height,
    {
        match pixmap_new(width, height) {
            Some(pixmap) => {
                let c = Canvas { pixmap };
                assert forall|x: int, y: int| c.in_bounds(x, y) implies #[trigger] c.pixel(x, y)
                    == PremultipliedRgba::transparent() by {
                    lemma_index_bounds(width as int, height as int, x, y);
                }
                Ok(c)
            },
            None => Err(RenderError::InvalidSize { width, height }),
        }
    }

    /// Wraps an existing pixmap.
    pub fn from_pixmap(pixmap: tiny_skia::Pixmap) -> (c: Self)
        ensures
            c.bytes() == pixmap_bytes(pixmap),
            (c.width_spec(), c.height_spec()) == (
                pixmap_size(pixmap).0 as int,
                pixmap_size(pixmap).1 as int,
            ),
    {
        let _ = pixmap_dimensions(&pixmap);
        Canvas { pixmap }
    }

    pub fn width(&self) -> (w: u32)
        ensures
            w == self.width_spec(),
            0 < w,
            w as int * 4 <= i32::MAX,
    {
        pixmap_dimensions(&self.pixmap).0
    }

    pub fn height(&self) -> (h: u32)
        ensures
            h == self.height_spec(),
            0 < h,
    {
        pixmap_dimensions(&self.pixmap).1
    }

    pub fn into_pixmap(self) -> (p: tiny_skia::Pixmap)
        ensures
            pixmap_bytes(p) == self.bytes(),
            pixmap_size(p).0 == self.width_spec(),
            pixmap_size(p).1 == self.height_spec(),
    {
        self.pixmap
    }

    /// Source-over of one pixel at `(x, y)`; outside the canvas nothing happens.
    pub fn blend_pixel(&mut self, x: i32, y: i32, src: PremultipliedRgba)
        ensures
            final(self).same_size(*old(self)),
            forall|px: int, py: int|
                old(self).in_bounds(px, py) ==> #[trigger] final(self).pixel(px, py) == if px == x
                    && py == y && old(self).blendable(px, py) {
                    source_over(src, old(self).pixel(px, py))
                } else {
                    old(self).pixel(px, py)
                },
    {
        proof {
            use_type_invariant(&*self);
        }
        let (w, h) = pixmap_dimensions(&self.pixmap);
        let h_limit: i32 = #[verifier::truncate] (h as i32);
        if x < 0 || y < 0 || x >= w as i32 || y >= h_limit {
            proof {
                if h <= i32::MAX {
                    assert(h_limit == h);
                } else {
                    assert(h_limit < 0) by (bit_vector)
                        requires
                            h > 0x7fff_ffffu32,
                            h_limit == h as i32,
                    ;
                }
            }
            return;
        }
        proof {
            if h > i32::MAX {
                assert(h_limit < 0) by (bit_vector)
                    requires
                        h > 0x7fff_ffffu32,
                        h_limit == h as i32,
                ;
            }
            assert(h_limit == h);
        }
        proof {
            lemma_index_bounds(w as int, h as int, x as int, y as int);
        }
        let index = (y as usize) * (w as usize) + (x as usize);
        let base = index * 4;
        let dst = PremultipliedRgba {
            red: pixmap_byte(&self.pixmap, base),
            green: pixmap_byte(&self.pixmap, base + 1),
            blue: pixmap_byte(&self.pixmap, base + 2),
            alpha: pixmap_byte(&self.pixmap, base + 3),
        };
        let inverse = 255 - src.alpha;
        let a = src.alpha.saturating_add(mul_u8(dst.alpha, inverse));
        let r = min_u8(src.red.saturating_add(mul_u8(dst.red, inverse)), a);
        let g = min_u8(src.green.saturating_add(mul_u8(dst.green, inverse)), a);
        let b = min_u8(src.blue.saturating_add(mul_u8(dst.blue, inverse)), a);
        let ghost before = *self;
        if let Some(out) = checked_premultiplied(r, g, b, a) {
            pixmap_set_byte(&mut self.pixmap, base, out.red);
            pixmap_set_byte(&mut self.pixmap, base + 1, out.green);
            pixmap_set_byte(&mut self.pixmap, base + 2, out.blue);
            pixmap_set_byte(&mut self.pixmap, base + 3, out.alpha);
        }
        proof {
            assert forall|px: int, py: int| before.in_bounds(px, py) implies #[trigger] self.pixel(
                px,
                py,
            ) == if px == x && py == y && before.blendable(px, py) {
                source_over(src, before.pixel(px, py))
            } else {
                before.pixel(px, py)
            } by {
                lemma_index_bounds(w as int, h as int, px, py);
                if px != x || py != y {
                    if py * w + px == y * w + x {
                        lemma_index_injective(w as int, px, py, x as int, y as int);
                    }
                }
            }
        }
    }

    /// Source-over of one pixel at a position computed in `i64`; a position outside
    /// `i32` is off the canvas (or in rows where nothing blends).
    fn blend_at(&mut self, px: i64, py: i64, src: PremultipliedRgba)
        ensures
            final(self).same_size(*old(self)),
            forall|qx: int, qy: int|
                old(self).in_bounds(qx, qy) ==> #[trigger] final(self).pixel(qx, qy) == if qx == px
                    && qy == py && old(self).blendable(qx, qy) {
                    source_over(src, old(self).pixel(qx, qy))
                } else {
                    old(self).pixel(qx, qy)
                },
    {
        proof {
            use_type_invariant(&*self);
        }
        if px < 0 || py < 0 || px > 0x7fff_ffff || py > 0x7fff_ffff {
            return;
        }
        self.blend_pixel(px as i32, py as i32, src);
    }

    /// Blends an 8-bit coverage mask (an ordinary glyph) in `color`, its top-left
    /// corner at `(x, y)`; stops where `data` runs out.
    pub fn blend_mask(&mut self, x: i32, y: i32, width: u32, height: u32, data: &[u8], color: Color)
        ensures
            final(self).same_size(*old(self)),
            forall|px: int, py: int|
                old(self).in_bounds(px, py) ==> #[trigger] final(self).pixel(px, py) == stamped(
                    old(self).pixel(px, py),
                    if old(self).blendable(px, py) {
                        mask_source(
                            x as int,
                            y as int,
                            width as int,
                            height as int,
                            data@,
                            color,
                            px,
                            py,
                        )
                    } else {
                        None
                    },
                ),
    {
        let ghost start = *self;
        let mut row: u32 = 0;
        while row < height
            invariant
                0 <= row <= height,
                start == *old(self),
                self.same_size(start),
                forall|px: int, py: int|
                    start.in_bounds(px, py) ==> #[trigger] self.pixel(px, py) == stamped(
                        start.pixel(px, py),
                        if start.blendable(px, py) {
                            upto(
                                mask_source(
                                    x as int,
                                    y as int,
                                    width as int,
                                    height as int,
                                    data@,
                                    color,
                                    px,
                                    py,
                                ),
                                x as int,
                                y as int,
                                width as int,
                                px,
                                py,
                                row as int * width as int,
                            )
                        } else {
                            None
                        },
                    ),
            decreases height - row,
        {
            let mut col: u32 = 0;
            while col < width
                invariant
                    0 <= row < height,
                    0 <= col <= width,
                    start == *old(self),
                    self.same_size(start),
                    forall|px: int, py: int|
                        start.in_bounds(px, py) ==> #[trigger] self.pixel(px, py) == stamped(
                            start.pixel(px, py),
                            if start.blendable(px, py) {
                                upto(
                                    mask_source(
                                        x as int,
                                        y as int,
                                        width as int,
                                        height as int,
                                        data@,
                                        color,
                                        px,
                                        py,
                                    ),
                                    x as int,
                                    y as int,
                                    width as int,
                                    px,
                                    py,
                                    row as int * width as int + col as int,
                                )
                            } else {
                                None
                            },
                        ),
                decreases width - col,
            {
                proof {
                    assert(row as int * width as int + (col as int) < width as int * height as int)
                        by (nonlinear_arith)
                        requires
                            row < height,
                            col < width,
                    ;
                    assert(width as int * height as int <= 0xffff_ffff * 0xffff_ffff)
                        by (nonlinear_arith)
                        requires
                            width <= 0xffff_ffff,
                            height <= 0xffff_ffff,
                    ;
                }
                let index = (row as u64) * (width as u64) + (col as u64);
                let ghost k = index as int;
                if index >= data.len() as u64 {
                    proof {
                        assert forall|px: int, py: int| start.in_bounds(px, py) implies #[trigger] self.pixel(
                            px,
                            py,
                        ) == stamped(
                            start.pixel(px, py),
                            if start.blendable(px, py) {
                                mask_source(
                                    x as int,
                                    y as int,
                                    width as int,
                                    height as int,
                                    data@,
                                    color,
                                    px,
                                    py,
                                )
                            } else {
                                None
                            },
                        ) by {}
                    }
                    return;
                }
                let coverage = data[index as usize];
                let ghost before = *self;
                if coverage != 0 {
                    let src = color.premultiplied(coverage);
                    self.blend_at(x as i64 + col as i64, y as i64 + row as i64, src);
                }
                proof {
                    assert forall|px: int, py: int| start.in_bounds(px, py) implies #[trigger] self.pixel(
                        px,
                        py,
                    ) == stamped(
                        start.pixel(px, py),
                        if start.blendable(px, py) {
                            upto(
                                mask_source(
                                    x as int,
                                    y as int,
                                    width as int,
                                    height as int,
                                    data@,
                                    color,
                                    px,
                                    py,
                                ),
                                x as int,
                                y as int,
                                width as int,
                                px,
                                py,
                                k + 1,
                            )
                        } else {
                            None
                        },
                    ) by {
                        let i = layer_index(x as int, y as int, width as int, px, py);
                        assert(before.pixel(px, py) == self.pixel(px, py) || (px == x + col && py
                            == y + row));
                        if px == x + col && py == y + row {
                            assert(i == k);
                        } else if in_layer(x as int, y as int, width as int, height as int, px, py)
                            && i == k {
                            lemma_index_injective(
                                width as int,
                                px - x,
                                py - y,
                                col as int,
                                row as int,
                            );
                        }
                    }
                }
                col += 1;
            }
            proof {
                assert((row as int + 1) * width as int == row as int * width as int + width as int)
                    by (nonlinear_arith);
            }
            row += 1;
        }
        proof {
            assert forall|px: int, py: int|
                in_layer(x as int, y as int, width as int, height as int, px, py) implies
                #[trigger] layer_index(x as int, y as int, width as int, px, py) < height as int
                * width as int by {
                lemma_index_bounds(width as int, height as int, px - x, py - y);
                assert(width as int * height as int == height as int * width as int)
                    by (nonlinear_arith);
            }
        }
    }

    /// Blends a straight RGBA bitmap (a colour emoji), its top-left corner at `(x, y)`;
    /// stops at the first visible pixel below the last row.
    pub fn blend_rgba(&mut self, x: i32, y: i32, width: u32, height: u32, data: &[u8])
        requires
            width == 0 ==> forall|j: int|
                0 <= j && 4 * j + 4 <= data@.len() ==> #[trigger] data@[4 * j + 3] == 0,
        ensures
            final(self).same_size(*old(self)),
            forall|px: int, py: int|
                old(self).in_bounds(px, py) ==> #[trigger] final(self).pixel(px, py) == stamped(
                    old(self).pixel(px, py),
                    if old(self).blendable(px, py) {
                        rgba_source(x as int, y as int, width as int, height as int, data@, px, py)
                    } else {
                        None
                    },
                ),
    {
        let ghost start = *self;
        let n = data.len() / 4;
        let mut i: usize = 0;
        while i < n
            invariant
                0 <= i <= n,
                n == data@.len() / 4,
                data@.len() <= usize::MAX,
                width == 0 ==> forall|j: int|
                    0 <= j && 4 * j + 4 <= data@.len() ==> #[trigger] data@[4 * j + 3] == 0,
                start == *old(self),
                self.same_size(start),
                forall|px: int, py: int|
                    start.in_bounds(px, py) ==> #[trigger] self.pixel(px, py) == stamped(
                        start.pixel(px, py),
                        if start.blendable(px, py) {
                            upto(rgba_source(x as int, y as int, width as int, height as int, data@, px, py), x as int, y as int, width as int, px, py, i as int)
                        } else {
                            None
                        },
                    ),
            decreases n - i,
        {
            let base = i * 4;
            let ghost before = *self;
            if data[base + 3] == 0 {
                i += 1;
                continue;
            }
            proof {
                if width == 0 {
                    assert(data@[4 * (i as int) + 3] == 0);
                }
                vstd::arithmetic::div_mod::lemma_fundamental_div_mod(i as int, width as int);
                vstd::arithmetic::div_mod::lemma_mod_bound(i as int, width as int);
            }
            let col = i as u64 % width as u64;
            let row = i as u64 / width as u64;
            if row >= height as u64 {
                proof {
                    assert(i as int >= width as int * height as int) by (nonlinear_arith)
                        requires
                            i as int == width as int * (i as int / width as int) + (i as int % width as int),
                            i as int / width as int >= height as int,
                            0 <= i as int % width as int,
                            width > 0,
                    ;
                    assert forall|px: int, py: int|
                        in_layer(x as int, y as int, width as int, height as int, px, py) implies
                        #[trigger] layer_index(x as int, y as int, width as int, px, py) < i as int by {
                        lemma_index_bounds(width as int, height as int, px - x, py - y);
                    }
                }
                return;
            }
            let src = premultiply(data[base], data[base + 1], data[base + 2], data[base + 3]);
            self.blend_at(x as i64 + col as i64, y as i64 + row as i64, src);
            proof {
                assert(col as int == i as int % width as int);
                assert(row as int == i as int / width as int);
                assert((i as int / width as int) * width as int == width as int * (i as int
                    / width as int)) by (nonlinear_arith);
                assert(i as int == row as int * width as int + col as int);
                assert forall|px: int, py: int| start.in_bounds(px, py) implies #[trigger] self.pixel(
                    px,
                    py,
                ) == stamped(
                    start.pixel(px, py),
                    if start.blendable(px, py) {
                        upto(rgba_source(x as int, y as int, width as int, height as int, data@, px, py), x as int, y as int, width as int, px, py, i as int + 1)
                    } else {
                        None
                    },
                ) by {
                    let t = layer_index(x as int, y as int, width as int, px, py);
                    if px == x + col && py == y + row {
                        assert(t == i);
                    } else if in_layer(x as int, y as int, width as int, height as int, px, py)
                        && t == i {
                        assert((py - y) * width + (px - x) == row as int * width as int + col as int);
                        lemma_index_injective(width as int, px - x, py - y, col as int, row as int);
                    }
                }
            }
            i += 1;
        }
    }

    /// Blends a whole premultiplied pixmap, its top-left corner at `(x, y)`; fully
    /// transparent pixels are skipped.
    pub fn blend_pixmap(&mut self, x: i32, y: i32, other: &tiny_skia::Pixmap)
        ensures
            final(self).same_size(*old(self)),
            forall|px: int, py: int|
                old(self).in_bounds(px, py) ==> #[trigger] final(self).pixel(px, py) == stamped(
                    old(self).pixel(px, py),
                    if old(self).blendable(px, py) {
                        pixmap_source(
                            x as int,
                            y as int,
                            pixmap_size(*other).0 as int,
                            pixmap_bytes(*other),
                            px,
                            py,
                        )
                    } else {
                        None
                    },
                ),
    {
        let ghost start = *self;
        let (width, _) = pixmap_dimensions(other);
        let n = pixmap_byte_len(other) / 4;
        let mut i: usize = 0;
        while i < n
            invariant
                0 <= i <= n,
                n == pixmap_bytes(*other).len() / 4,
                pixmap_bytes(*other).len() <= usize::MAX,
                0 < width,
                width == pixmap_size(*other).0,
                start == *old(self),
                self.same_size(start),
                forall|px: int, py: int|
                    start.in_bounds(px, py) ==> #[trigger] self.pixel(px, py) == stamped(
                        start.pixel(px, py),
                        if start.blendable(px, py) {
                            upto(pixmap_source(x as int, y as int, width as int, pixmap_bytes(*other), px, py), x as int, y as int, width as int, px, py, i as int)
                        } else {
                            None
                        },
                    ),
            decreases n - i,
        {
            let base = i * 4;
            let ghost before = *self;
            if pixmap_byte(other, base + 3) == 0 {
                i += 1;
                continue;
            }
            proof {
                vstd::arithmetic::div_mod::lemma_fundamental_div_mod(i as int, width as int);
                vstd::arithmetic::div_mod::lemma_mod_bound(i as int, width as int);
                vstd::arithmetic::div_mod::lemma_div_is_ordered(i as int, n as int, width as int);
                vstd::arithmetic::div_mod::lemma_div_pos_is_pos(i as int, width as int);
            }
            let col = i as u64 % width as u64;
            let row = i as u64 / width as u64;
            let src = PremultipliedRgba {
                red: pixmap_byte(other, base),
                green: pixmap_byte(other, base + 1),
                blue: pixmap_byte(other, base + 2),
                alpha: pixmap_byte(other, base + 3),
            };
            self.blend_at(x as i64 + col as i64, y as i64 + row as i64, src);
            proof {
                assert(col as int == i as int % width as int);
                assert(row as int == i as int / width as int);
                assert((i as int / width as int) * width as int == width as int * (i as int
                    / width as int)) by (nonlinear_arith);
                assert(i as int == row as int * width as int + col as int);
                assert forall|px: int, py: int| start.in_bounds(px, py) implies #[trigger] self.pixel(
                    px,
                    py,
                ) == stamped(
                    start.pixel(px, py),
                    if start.blendable(px, py) {
                        upto(pixmap_source(x as int, y as int, width as int, pixmap_bytes(*other), px, py), x as int, y as int, width as int, px, py, i as int + 1)
                    } else {
                        None
                    },
                ) by {
                    let t = layer_index(x as int, y as int, width as int, px, py);
                    if px == x + col && py == y + row {
                        assert(t == i);
                    } else if x <= px < x + width && y <= py && t == i {
                        assert((py - y) * width + (px - x) == row as int * width as int + col as int);
                        lemma_index_injective(width as int, px - x, py - y, col as int, row as int);
                    }
                }
            }
            i += 1;
        }
    }
}

} // verus!
