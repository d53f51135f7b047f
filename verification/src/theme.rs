//! Colour schemes and candidate arrangements. The two default palettes are the macOS
//! system semantic colours as measured in sRGB (label 0.847, secondaryLabel 0.498, ...).

use vstd::prelude::*;

use crate::color::Color;

verus! {

/// How the candidates are arranged.
#[derive(Debug, Clone, Copy, PartialEq, Eq, Structural)]
pub enum Layout {
    /// One candidate per line, its gloss to the right on the same line.
    Vertical,
    /// Candidates on one line; only the highlighted one shows its gloss, on a line below.
    Horizontal,
}

impl Default for Layout {
    fn default() -> (l: Self)
        ensures
            l == Layout::Vertical,
    {
        Layout::Vertical
    }
}

/// One set of colours.
#[derive(Debug, Clone, Copy, PartialEq, Eq, Structural)]
pub struct Palette {
    /// Candidate words.
    pub text: Color,
    /// Glosses.
    pub gloss: Color,
    /// Parts of speech, fainter than glosses.
    pub pos: Color,
    /// Glosses of new words: brighter than ordinary glosses until the word is familiar.
    pub fresh: Color,
    /// Candidate numbers.
    pub index: Color,
    /// The cloud marker and cloud words: a little brighter than glosses.
    pub cloud: Color,
    /// Window background.
    pub background: Color,
    /// Highlight behind the current candidate.
    pub highlight: Color,
}

pub open spec fn gray(level: u8, a: u8) -> Color {
    Color { r: level, g: level, b: level, a }
}

pub open spec fn opaque(r: u8, g: u8, b: u8) -> Color {
    Color { r, g, b, a: 255 }
}

impl Palette {
    pub open spec fn light_spec() -> Palette {
        Palette {
            text: gray(0, 216),
            gloss: gray(0, 127),
            pos: gray(0, 66),
            fresh: opaque(255, 141, 40),
            index: gray(0, 66),
            cloud: opaque(0, 195, 208),
            background: opaque(255, 255, 255),
            highlight: Color { r: 0, g: 122, b: 255, a: 41 },
        }
    }

    pub open spec fn dark_spec() -> Palette {
        Palette {
            text: gray(255, 216),
            gloss: gray(255, 140),
            pos: gray(255, 63),
            fresh: opaque(255, 146, 48),
            index: gray(255, 63),
            cloud: opaque(0, 210, 224),
            background: opaque(30, 30, 30),
            highlight: Color { r: 0, g: 122, b: 255, a: 41 },
        }
    }

    pub fn light() -> (p: Self)
        ensures
            p == Palette::light_spec(),
    {
        Palette {
            text: Color::gray(0, 216),
            gloss: Color::gray(0, 127),
            pos: Color::gray(0, 66),
            fresh: Color::rgb(255, 141, 40),
            index: Color::gray(0, 66),
            cloud: Color::rgb(0, 195, 208),
            background: Color::rgb(255, 255, 255),
            highlight: Color::rgba(0, 122, 255, 41),
        }
    }

    pub fn dark() -> (p: Self)
        ensures
            p == Palette::dark_spec(),
    {
        Palette {
            text: Color::gray(255, 216),
            gloss: Color::gray(255, 140),
            pos: Color::gray(255, 63),
            fresh: Color::rgb(255, 146, 48),
            index: Color::gray(255, 63),
            cloud: Color::rgb(0, 210, 224),
            background: Color::rgb(30, 30, 30),
            highlight: Color::rgba(0, 122, 255, 41),
        }
    }
}

} // verus!
