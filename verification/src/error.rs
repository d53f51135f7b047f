//! The renderer's errors.

use vstd::prelude::*;

verus! {

#[derive(Debug)]
pub enum RenderError {
    /// Not one UI font could be loaded, so no text can be drawn; lists the files tried.
    NoUiFont { tried: Vec<String> },
    /// The bitmap size is zero or too large for tiny-skia to allocate.
    InvalidSize { width: u32, height: u32 },
}

} // verus!
