//! What one candidate-window frame shows on its top line: the pinyin segments and the
//! caret the renderer draws itself; and the shades of annotation pieces.

use vstd::prelude::*;
use vstd::string::{StrSliceExecFns, StringExecFns};

verus! {

/// How a preedit segment is drawn.
#[derive(Debug, Clone, Copy, PartialEq, Eq, Structural)]
pub enum PreeditStyle {
    /// What the user typed.
    Typed,
    /// The part not yet converted, drawn fainter.
    Rest,
    /// Pinyin replaced by a correction, struck through.
    Struck,
}

/// The shade of an annotation piece.
#[derive(Debug, Clone, Copy, PartialEq, Eq, Structural)]
pub enum Tone {
    /// A gloss.
    Gloss,
    /// The gloss of a word the user has rarely seen yet, in the accent colour.
    Fresh,
    /// Part of speech and separators, the faintest.
    Faint,
}

/// One stretch of the preedit and how to draw it.
#[derive(Debug, Clone, PartialEq, Eq)]
pub struct PreeditSegment {
    pub text: String,
    pub style: PreeditStyle,
}

/// The pinyin line at the top of the candidate window.
#[derive(Debug, Clone, Default, PartialEq, Eq)]
pub struct Preedit {
    /// Drawn in order.
    pub segments: Vec<PreeditSegment>,
    /// The caret, as a character position in the joined text.
    pub cursor: usize,
}

/// The segments' texts joined in order.
pub open spec fn joined(segments: Seq<PreeditSegment>) -> Seq<char>
    decreases segments.len(),
{
    if segments.len() == 0 {
        seq![]
    } else {
        joined(segments.drop_last()) + segments.last().text@
    }
}

impl Preedit {
    pub open spec fn text_spec(self) -> Seq<char> {
        joined(self.segments@)
    }

    /// One plain segment.
    pub fn plain(text: &str, cursor: usize) -> (p: Self)
        ensures
            p.segments@.len() == 1,
            p.segments@[0].text@ == text@,
            p.segments@[0].style == PreeditStyle::Typed,
            p.cursor == cursor,
    {
        let segment = PreeditSegment { text: text.to_owned(), style: PreeditStyle::Typed };
        let mut segments = Vec::new();
        segments.push(segment);
        Preedit { segments, cursor }
    }

    /// The whole text, segments joined.
    pub fn text(&self) -> (t: String)
        ensures
            t@ == self.text_spec(),
    {
        let mut out = String::new();
        let mut i: usize = 0;
        while i < self.segments.len()
            invariant
                i <= self.segments@.len(),
                out@ == joined(self.segments@.take(i as int)),
            decreases self.segments@.len() - i,
        {
            out.append(self.segments[i].text.as_str());
            proof {
                assert(self.segments@.take(i as int + 1).drop_last() =~= self.segments@.take(
                    i as int,
                ));
            }
            i += 1;
        }
        proof {
            assert(self.segments@.take(i as int) =~= self.segments@);
        }
        out
    }

    /// The text before the caret (to measure where the caret goes).
    pub fn before_cursor(&self) -> (t: String)
        ensures
            self.cursor <= self.text_spec().len() ==> t@ == self.text_spec().take(self.cursor as int),
            self.cursor > self.text_spec().len() ==> t@ == self.text_spec(),
    {
        let text = self.text();
        let n = text.as_str().unicode_len();
        let end = if self.cursor < n {
            self.cursor
        } else {
            n
        };
        let head = text.as_str().substring_char(0, end);
        proof {
            assert(text@.subrange(0, end as int) =~= text@.take(end as int));
            if self.cursor > n {
                assert(text@.take(n as int) =~= text@);
            }
        }
        String::from_str(head)
    }
}

} // verus!
