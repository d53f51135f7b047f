//! Colours: 8-bit sRGB plus alpha, independent of any platform, and the fixed-point
//! arithmetic that turns them into premultiplied pixels.

use vstd::prelude::*;

use crate::skia::checked_premultiplied;

verus! {

/// A straight (not premultiplied) RGBA colour.
#[derive(Debug, Clone, Copy, PartialEq, Eq, Structural)]
pub struct Color {
    pub r: u8,
    pub g: u8,
    pub b: u8,
    /// Opacity; 255 is fully opaque.
    pub a: u8,
}

/// A premultiplied RGBA pixel, the representation the canvas stores.
#[derive(Debug, Clone, Copy, PartialEq, Eq, Structural)]
pub struct PremultipliedRgba {
    pub red: u8,
    pub green: u8,
    pub blue: u8,
    pub alpha: u8,
}

impl PremultipliedRgba {
    /// A premultiplied pixel is valid when no colour channel exceeds its alpha.
    pub open spec fn is_valid(self) -> bool {
        self.red <= self.alpha && self.green <= self.alpha && self.blue <= self.alpha
    }

    pub open spec fn transparent() -> PremultipliedRgba {
        PremultipliedRgba { red: 0, green: 0, blue: 0, alpha: 0 }
    }

    pub fn red(&self) -> (r: u8)
        ensures
            r == self.red,
    {
        self.red
    }

    pub fn green(&self) -> (g: u8)
        ensures
            g == self.green,
    {
        self.green
    }

    pub fn blue(&self) -> (b: u8)
        ensures
            b == self.blue,
    {
        self.blue
    }

    pub fn alpha(&self) -> (a: u8)
        ensures
            a == self.alpha,
    {
        self.alpha
    }
}

/// `a * b / 255` rounded to nearest, the 8-bit fixed-point product.
pub open spec fn mul8(a: int, b: int) -> int {
    (a * b + 127) / 255
}

/// The premultiplied form of a straight colour.
pub open spec fn premultiply_spec(r: u8, g: u8, b: u8, a: u8) -> PremultipliedRgba {
    PremultipliedRgba {
        red: mul8(r as int, a as int) as u8,
        green: mul8(g as int, a as int) as u8,
        blue: mul8(b as int, a as int) as u8,
        alpha: a,
    }
}

pub(crate) proof fn lemma_mul8_bounds(a: int, b: int)
    requires
        0 <= a <= 255,
        0 <= b <= 255,
    ensures
        0 <= mul8(a, b) <= a,
        0 <= mul8(a, b) <= b,
{
    assert(0 <= a * b <= a * 255) by (nonlinear_arith)
        requires
            0 <= a <= 255,
            0 <= b <= 255,
    ;
    assert(a * b <= 255 * b) by (nonlinear_arith)
        requires
            0 <= a <= 255,
            0 <= b <= 255,
    ;
}

/// `mul8` rounds `a * b / 255` to the nearest integer (halves up): it is within half
/// a unit of the exact quotient.
pub proof fn lemma_mul8_nearest(a: int, b: int)
    requires
        0 <= a <= 255,
        0 <= b <= 255,
    ensures
        -127 <= a * b - 255 * mul8(a, b) <= 127,
{
    assert(0 <= a * b) by (nonlinear_arith)
        requires
            0 <= a,
            0 <= b,
    ;
}

/// 8-bit fixed-point product `a * b / 255`, rounded to nearest.
pub fn mul_u8(a: u8, b: u8) -> (r: u8)
    ensures
        r == mul8(a as int, b as int),
        r <= a,
        r <= b,
{
    proof {
        lemma_mul8_bounds(a as int, b as int);
    }
    assert((a as u32) * (b as u32) <= 65025) by (nonlinear_arith)
        requires
            a <= 255,
            b <= 255,
    ;
    (((a as u32) * (b as u32) + 127) / 255) as u8
}

/// Straight RGBA to premultiplied.
pub fn premultiply(r: u8, g: u8, b: u8, a: u8) -> (p: PremultipliedRgba)
    ensures
        p == premultiply_spec(r, g, b, a),
        p.is_valid(),
{
    match checked_premultiplied(mul_u8(r, a), mul_u8(g, a), mul_u8(b, a), a) {
        Some(p) => p,
        None => PremultipliedRgba { red: 0, green: 0, blue: 0, alpha: 0 },
    }
}

impl Color {
    pub fn rgba(r: u8, g: u8, b: u8, a: u8) -> (c: Self)
        ensures
            c == (Color { r, g, b, a }),
    {
        Color { r, g, b, a }
    }

    pub fn rgb(r: u8, g: u8, b: u8) -> (c: Self)
        ensures
            c == (Color { r, g, b, a: 255 }),
    {
        Color { r, g, b, a: 255 }
    }

    /// Black or white with an opacity: the shape of the system's semantic label colours.
    pub fn gray(level: u8, alpha: u8) -> (c: Self)
        ensures
            c == (Color { r: level, g: level, b: level, a: alpha }),
    {
        Color { r: level, g: level, b: level, a: alpha }
    }

    /// The premultiplied colour after scaling the opacity by a coverage value (a glyph mask sample).
    pub open spec fn premultiplied_spec(self, coverage: u8) -> PremultipliedRgba {
        premultiply_spec(self.r, self.g, self.b, mul8(self.a as int, coverage as int) as u8)
    }

    pub fn premultiplied(self, coverage: u8) -> (p: PremultipliedRgba)
        ensures
            p == self.premultiplied_spec(coverage),
            p.is_valid(),
    {
        let alpha = mul_u8(self.a, coverage);
        premultiply(self.r, self.g, self.b, alpha)
    }
}

} // verus!
