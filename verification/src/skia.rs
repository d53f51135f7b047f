//! The calls into `tiny-skia` that the verified code makes, with the contracts
//! that tiny-skia's own source gives them.

use vstd::prelude::*;

use crate::color::PremultipliedRgba;

verus! {

/// `tiny_skia::PremultipliedColorU8::from_rgba` accepts the four channels exactly
/// when none of red, green and blue exceeds alpha, and then keeps them unchanged.
#[verifier::external_body]
pub(crate) fn checked_premultiplied(r: u8, g: u8, b: u8, a: u8) -> (res: Option<PremultipliedRgba>)
    ensures
        res is Some <==> (r <= a && g <= a && b <= a),
        res matches Some(c) ==> c.red == r && c.green == g && c.blue == b && c.alpha == a,
{
    tiny_skia::PremultipliedColorU8::from_rgba(r, g, b, a).map(
        |c| PremultipliedRgba { red: c.red(), green: c.green(), blue: c.blue(), alpha: c.alpha() },
    )
}

} // verus!

verus! {

#[verifier::external_type_specification]
#[verifier::external_body]
pub struct ExPixmap(tiny_skia::Pixmap);

/// The bytes a `tiny_skia::Pixmap` holds: premultiplied RGBA, four bytes per pixel,
/// row after row.
pub uninterp spec fn pixmap_bytes(p: tiny_skia::Pixmap) -> Seq<u8>;

/// The width and height a `tiny_skia::Pixmap` was made with.
pub uninterp spec fn pixmap_size(p: tiny_skia::Pixmap) -> (u32, u32);

/// `tiny_skia::Pixmap::new` succeeds exactly when both sides are non-zero, a row of
/// the width fits in `i32` bytes and the whole buffer fits in `usize`; the new
/// pixmap has that size and every byte zero (transparent black).
#[verifier::external_body]
pub(crate) fn pixmap_new(width: u32, height: u32) -> (res: Option<tiny_skia::Pixmap>)
    ensures
        res is Some <==> (0 < width && 0 < height && width as int * 4 <= i32::MAX
            && width as int * height as int * 4 <= usize::MAX),
        res matches Some(p) ==> pixmap_size(p) == (width, height) && pixmap_bytes(p) == Seq::new(
            (width as int * height as int * 4) as nat,
            |i: int| 0u8,
        ),
{
    tiny_skia::Pixmap::new(width, height)
}

/// `Pixmap::width` and `Pixmap::height`. Every way tiny-skia builds a pixmap checks
/// the size first, so both sides are non-zero, a row fits in `i32` bytes, and the
/// buffer (a `Vec`) holds at least `width * height` pixels.
#[verifier::external_body]
pub(crate) fn pixmap_dimensions(p: &tiny_skia::Pixmap) -> (res: (u32, u32))
    ensures
        res == pixmap_size(*p),
        0 < res.0 && 0 < res.1 && res.0 as int * 4 <= i32::MAX,
        res.0 as int * res.1 as int * 4 <= pixmap_bytes(*p).len() <= usize::MAX,
{
    (p.width(), p.height())
}

/// One byte of `Pixmap::data`.
#[verifier::external_body]
pub(crate) fn pixmap_byte(p: &tiny_skia::Pixmap, index: usize) -> (b: u8)
    requires
        index < pixmap_bytes(*p).len(),
    ensures
        b == pixmap_bytes(*p)[index as int],
{
    p.data()[index]
}

/// Writes one byte through `Pixmap::data_mut`; the size and every other byte stay.
#[verifier::external_body]
pub(crate) fn pixmap_set_byte(p: &mut tiny_skia::Pixmap, index: usize, value: u8)
    requires
        index < pixmap_bytes(*old(p)).len(),
    ensures
        pixmap_size(*final(p)) == pixmap_size(*old(p)),
        pixmap_bytes(*final(p)) == pixmap_bytes(*old(p)).update(index as int, value),
    no_unwind
{
    p.data_mut()[index] = value;
}

} // verus!

verus! {

/// The length of `Pixmap::data`, in bytes.
#[verifier::external_body]
pub(crate) fn pixmap_byte_len(p: &tiny_skia::Pixmap) -> (n: usize)
    ensures
        n == pixmap_bytes(*p).len(),
{
    p.data().len()
}

} // verus!
