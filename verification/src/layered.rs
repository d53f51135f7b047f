//! What the Windows layered window needs from the verified side: the shadow margin at
//! a DPI, and the renderer's premultiplied RGBA bitmap reordered into the BGRA a DIB
//! holds (both premultiplied, so only the channel order changes).

use vstd::prelude::*;

use crate::skia::{pixmap_byte, pixmap_byte_len, pixmap_bytes};

verus! {

/// The shadow margin around the content, in logical pixels.
pub const SHADOW_MARGIN: i32 = 16;

/// The shadow margin in physical pixels at `dpi` (96 is 100%), at least one pixel.
/// A DPI above `i32::MAX` reads as negative, as the cast does, and gets one pixel.
pub fn shadow_margin(dpi: u32) -> (m: i32)
    requires
        dpi <= 134217727 || dpi > 0x7fff_ffff + 0x7800_0000,
    ensures
        m == if dpi <= 0x7fff_ffff {
            if 16 * dpi / 96 >= 1 {
                16 * dpi / 96
            } else {
                1
            }
        } else {
            1
        },
{
    if dpi > 0x7fff_ffff {
        return 1;
    }
    let d = dpi as i32;
    let m = SHADOW_MARGIN * d / 96;
    if m >= 1 {
        m
    } else {
        1
    }
}

/// The BGRA bytes of premultiplied RGBA `bytes`: red and blue swap in every whole
/// pixel; a trailing partial pixel is dropped.
pub open spec fn bgra_of(bytes: Seq<u8>) -> Seq<u8> {
    Seq::new(
        (bytes.len() / 4 * 4) as nat,
        |i: int|
            if i % 4 == 0 {
                bytes[i + 2]
            } else if i % 4 == 2 {
                bytes[i - 2]
            } else {
                bytes[i]
            },
    )
}

/// The renderer's bitmap as the bytes of a premultiplied BGRA DIB.
pub fn bgra_pixels(pixmap: &tiny_skia::Pixmap) -> (out: Vec<u8>)
    ensures
        out@ == bgra_of(pixmap_bytes(*pixmap)),
{
    let n = pixmap_byte_len(pixmap) / 4;
    let ghost bytes = pixmap_bytes(*pixmap);
    let mut out: Vec<u8> = Vec::new();
    let mut i: usize = 0;
    while i < n
        invariant
            i <= n,
            n == bytes.len() / 4,
            bytes == pixmap_bytes(*pixmap),
            bytes.len() <= usize::MAX,
            out@.len() == i * 4,
            forall|k: int| 0 <= k < i * 4 ==> #[trigger] out@[k] == bgra_of(bytes)[k],
        decreases n - i,
    {
        let base = i * 4;
        out.push(pixmap_byte(pixmap, base + 2));
        out.push(pixmap_byte(pixmap, base + 1));
        out.push(pixmap_byte(pixmap, base));
        out.push(pixmap_byte(pixmap, base + 3));
        proof {
            assert forall|k: int| 0 <= k < (i + 1) * 4 implies #[trigger] out@[k] == bgra_of(bytes)[k] by {
                if k >= i * 4 {
                    assert(k - base == k % 4 && (k / 4) * 4 == base) by {
                        assert(base <= k < base + 4);
                        vstd::arithmetic::div_mod::lemma_fundamental_div_mod(k, 4);
                    }
                }
            }
        }
        i += 1;
    }
    proof {
        assert(out@ =~= bgra_of(bytes));
    }
    out
}

} // verus!
