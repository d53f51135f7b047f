//! The corrector's character vocabulary: the 26 lowercase letters plus four special
//! tokens, numbered as the model was trained. Inputs and outputs are pinyin written
//! without spaces.

use vstd::prelude::*;

use vstd::string::{StrSliceExecFns, StringSliceAdditionalSpecFns};

use crate::text::{is_whitespace, push_char, unicode_white_space};

verus! {

/// Padding.
pub const PAD: u32 = 0;

/// Start of decoding.
pub const BOS: u32 = 1;

/// End of decoding.
pub const EOS: u32 = 2;

/// Any byte that is not a lowercase ASCII letter.
pub const UNK: u32 = 3;

/// The id of the letter `a`.
pub const OFFSET: u32 = 4;

/// Vocabulary size: four special tokens and 26 letters.
pub const VOCAB_SIZE: u32 = 30;

/// The id of one input byte.
pub open spec fn encode_byte(b: u8) -> u32 {
    if 0x61 <= b <= 0x7a {
        (b - 0x61 + OFFSET) as u32
    } else {
        UNK
    }
}

/// The ids of a byte string.
pub open spec fn encoded(bytes: Seq<u8>) -> Seq<u32> {
    bytes.map_values(|b: u8| encode_byte(b))
}

/// The letter an id stands for, if it is a letter id.
pub open spec fn id_letter(id: u32) -> Seq<char> {
    if OFFSET <= id < VOCAB_SIZE {
        seq![((0x61 + id - OFFSET) as u8) as char]
    } else {
        seq![]
    }
}

/// The letters of `ids`, special tokens skipped.
pub open spec fn letters(ids: Seq<u32>) -> Seq<char>
    decreases ids.len(),
{
    if ids.len() == 0 {
        seq![]
    } else {
        letters(ids.drop_last()) + id_letter(ids.last())
    }
}

/// ASCII uppercase letters lowered; every other character kept.
pub open spec fn ascii_lower(c: char) -> char {
    if 'A' <= c <= 'Z' {
        ((c as u32) + 32) as char
    } else {
        c
    }
}

/// The characters of `s` with every Unicode whitespace removed and ASCII lowered.
pub open spec fn normalized(s: Seq<char>) -> Seq<char>
    decreases s.len(),
{
    if s.len() == 0 {
        seq![]
    } else {
        normalized(s.drop_last()) + if unicode_white_space(s.last()) {
            seq![]
        } else {
            seq![ascii_lower(s.last())]
        }
    }
}

/// Every id `encode` produces is inside the vocabulary and none is a special token
/// other than [`UNK`].
pub proof fn lemma_encode_in_vocabulary(bytes: Seq<u8>, i: int)
    requires
        0 <= i < bytes.len(),
    ensures
        UNK <= encoded(bytes)[i] < VOCAB_SIZE,
{
}

/// Letters are numbered in alphabet order from [`OFFSET`]: byte `b` of `a`..=`z`
/// becomes `b - 'a' + 4`, any other byte [`UNK`]; and an id from 4 to 29 decodes to
/// the letter at that place in the alphabet, any other id to nothing.
pub proof fn lemma_alphabet_ids(bytes: Seq<u8>, id: u32)
    ensures
        forall|i: int|
            0 <= i < bytes.len() ==> #[trigger] encoded(bytes)[i] as int == if 0x61 <= bytes[i]
                <= 0x7a {
                bytes[i] as int - 0x61 + 4
            } else {
                3
            },
        4 <= id < 30 ==> letters(seq![id]) == seq![((id as int - 4 + 0x61) as u8) as char],
        !(4 <= id < 30) ==> letters(seq![id]) == Seq::<char>::empty(),
{
    assert(seq![id].drop_last() =~= Seq::<u32>::empty());
    assert(letters(seq![id]) == letters(Seq::<u32>::empty()) + id_letter(id));
    assert(Seq::<char>::empty() + id_letter(id) =~= id_letter(id));
}

/// Decoding the encoding of lowercase letters gives the same letters back, and the
/// encoding holds no end-of-sequence token, so decoding reads it to the end.
pub proof fn lemma_codec_round_trip(bytes: Seq<u8>)
    requires
        forall|i: int| 0 <= i < bytes.len() ==> 0x61 <= #[trigger] bytes[i] <= 0x7a,
    ensures
        letters(encoded(bytes)) == bytes.map_values(|b: u8| b as char),
        forall|i: int|
            0 <= i < bytes.len() ==> #[trigger] encoded(bytes)[i] != EOS,
    decreases bytes.len(),
{
    if bytes.len() > 0 {
        let init = bytes.drop_last();
        lemma_codec_round_trip(init);
        assert(encoded(bytes).drop_last() =~= encoded(init));
        assert(bytes.map_values(|b: u8| b as char) =~= init.map_values(|b: u8| b as char).push(
            bytes.last() as char,
        ));
        let b = bytes.last();
        assert(0x61 <= b <= 0x7a);
        assert(id_letter(encode_byte(b)) =~= seq![b as char]);
    }
}

/// A text that is already normalized is left as it is.
proof fn lemma_normalized_fixed(s: Seq<char>)
    requires
        forall|i: int|
            0 <= i < s.len() ==> !unicode_white_space(#[trigger] s[i]) && !('A' <= s[i] <= 'Z'),
    ensures
        normalized(s) == s,
    decreases s.len(),
{
    if s.len() > 0 {
        lemma_normalized_fixed(s.drop_last());
        assert(s.drop_last().push(s.last()) =~= s);
    }
}

/// What `normalize` produces holds no whitespace and no uppercase ASCII letter.
proof fn lemma_normalized_clean(s: Seq<char>)
    ensures
        forall|i: int|
            0 <= i < normalized(s).len() ==> !unicode_white_space(#[trigger] normalized(s)[i])
                && !('A' <= normalized(s)[i] <= 'Z'),
    decreases s.len(),
{
    if s.len() > 0 {
        let init = s.drop_last();
        lemma_normalized_clean(init);
        let c = s.last();
        let piece = if unicode_white_space(c) {
            seq![]
        } else {
            seq![ascii_lower(c)]
        };
        assert(normalized(s) == normalized(init) + piece);
        if !unicode_white_space(c) && 'A' <= c <= 'Z' {
            assert(0x61 <= ascii_lower(c) as u32 <= 0x7a);
        }
        assert forall|i: int| 0 <= i < normalized(s).len() implies !unicode_white_space(
            #[trigger] normalized(s)[i],
        ) && !('A' <= normalized(s)[i] <= 'Z') by {
            if i < normalized(init).len() {
                assert(normalized(s)[i] == normalized(init)[i]);
            } else {
                assert(normalized(s)[i] == piece[i - normalized(init).len()]);
            }
        }
    }
}

/// Normalizing twice is the same as normalizing once.
pub proof fn lemma_normalize_idempotent(s: Seq<char>)
    ensures
        normalized(normalized(s)) == normalized(s),
{
    lemma_normalized_clean(s);
    lemma_normalized_fixed(normalized(s));
}

/// Text to ids: each byte, a lowercase letter or [`UNK`].
pub fn encode(text: &str) -> (ids: Vec<u32>)
    ensures
        ids@ == encoded(text.spec_bytes()),
{
    let bytes = text.as_bytes();
    let mut ids: Vec<u32> = Vec::new();
    let mut i: usize = 0;
    while i < bytes.len()
        invariant
            i <= bytes@.len(),
            bytes@ == text.spec_bytes(),
            ids@ == encoded(bytes@.take(i as int)),
        decreases bytes@.len() - i,
    {
        let b = bytes[i];
        let id = if b >= 0x61 && b <= 0x7a {
            (b - 0x61) as u32 + OFFSET
        } else {
            UNK
        };
        ids.push(id);
        proof {
            assert(bytes@.take(i as int + 1) =~= bytes@.take(i as int).push(b));
        }
        i += 1;
    }
    proof {
        assert(bytes@.take(i as int) =~= bytes@);
    }
    ids
}

/// One row of ids back to text: stops at the first [`EOS`], skips special tokens.
pub fn decode_row(ids: &[u32]) -> (text: String)
    ensures
        exists|k: int|
            0 <= k <= ids@.len() && (k == ids@.len() || ids@[k] == EOS) && (forall|j: int|
                0 <= j < k ==> ids@[j] != EOS) && text@ == letters(#[trigger] ids@.take(k)),
{
    let mut out = String::new();
    let mut i: usize = 0;
    while i < ids.len()
        invariant
            i <= ids@.len(),
            forall|j: int| 0 <= j < i ==> ids@[j] != EOS,
            out@ == letters(ids@.take(i as int)),
        decreases ids@.len() - i,
    {
        let id = ids[i];
        if id == EOS {
            return out;
        }
        if OFFSET <= id && id < VOCAB_SIZE {
            let c = (0x61u8 + (id - OFFSET) as u8) as char;
            push_char(&mut out, c);
        }
        proof {
            assert(ids@.take(i as int + 1).drop_last() =~= ids@.take(i as int));
            assert(ids@.take(i as int + 1).last() == id);
            assert(id_letter(id) =~= if OFFSET <= id < VOCAB_SIZE {
                seq![((0x61 + id - OFFSET) as u8) as char]
            } else {
                seq![]
            });
        }
        i += 1;
    }
    out
}

/// Tidies an input: drops every whitespace character and lowers ASCII letters, giving
/// pinyin written without spaces.
pub fn normalize(text: &str) -> (out: String)
    ensures
        out@ == normalized(text@),
{
    let mut out = String::new();
    let n = text.unicode_len();
    let mut i: usize = 0;
    while i < n
        invariant
            i <= n,
            n == text@.len(),
            out@ == normalized(text@.take(i as int)),
        decreases n - i,
    {
        let c = text.get_char(i);
        if !is_whitespace(c) {
            let lowered = if 'A' <= c && c <= 'Z' {
                ((c as u8) + 32) as char
            } else {
                c
            };
            push_char(&mut out, lowered);
        }
        proof {
            assert(text@.take(i as int + 1).drop_last() =~= text@.take(i as int));
        }
        i += 1;
    }
    proof {
        assert(text@.take(n as int) =~= text@);
    }
    out
}

} // verus!
