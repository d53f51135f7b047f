//! The neural pinyin corrector's interface and the checks its exported structure
//! must pass before a model is built from it.

use vstd::prelude::*;

use vstd::string::StringSliceAdditionalSpecFns;
use vstd::utf8::encode_utf8;

use crate::codec::{encode, encoded, normalize, normalized, BOS, EOS, VOCAB_SIZE};

verus! {

/// The injection point for a neural pinyin-correction model: it turns the pinyin of a
/// scope (lowercase letters only, no `'`) into corrected pinyin strings, most likely
/// first. A model that cannot compute returns an empty `Vec`, and the caller then
/// treats it as having nominated nothing.
pub trait PinyinCorrector: Send {
    fn correct(&self, input: &str) -> Vec<String>;
}

/// The corrector's structure, as exported next to its weights.
#[derive(Debug, Clone, PartialEq, Eq, Structural)]
pub struct CorrectorConfig {
    /// Hidden width.
    pub d_model: usize,
    /// Attention heads.
    pub nhead: usize,
    /// Encoder layers.
    pub enc_layers: usize,
    /// Decoder layers.
    pub dec_layers: usize,
    /// Feed-forward width.
    pub dim_ff: usize,
    /// Rows of the positional encoding (the training `max_len`).
    pub max_len: usize,
    /// Vocabulary size: always 30.
    pub vocab_size: usize,
}

impl CorrectorConfig {
    /// The structure is usable: the fixed vocabulary, a head count that divides the
    /// width, and a positive maximum length.
    pub open spec fn usable(self) -> bool {
        &&& self.vocab_size == VOCAB_SIZE
        &&& self.d_model != 0 && self.nhead != 0 && self.d_model % self.nhead == 0
        &&& self.max_len != 0
    }

    /// Checks a parsed structure; the error says which rule it breaks, first rule first.
    pub fn checked(self) -> (r: Result<Self, &'static str>)
        ensures
            r is Ok <==> self.usable(),
            r matches Ok(c) ==> c == self,
            self.vocab_size != VOCAB_SIZE ==> (r matches Err(m) && m@
                == "corrector vocab must be 30"@),
            self.vocab_size == VOCAB_SIZE && !(self.d_model != 0 && self.nhead != 0 && self.d_model
                % self.nhead == 0) ==> (r matches Err(m) && m@ == "d_model must be divisible by nhead"@),
            self.vocab_size == VOCAB_SIZE && self.d_model != 0 && self.nhead != 0 && self.d_model
                % self.nhead == 0 && self.max_len == 0 ==> (r matches Err(m) && m@
                == "max_len must be positive"@),
    {
        if self.vocab_size != VOCAB_SIZE as usize {
            return Err("corrector vocab must be 30");
        }
        if self.d_model == 0 || self.nhead == 0 || self.d_model % self.nhead != 0 {
            return Err("d_model must be divisible by nhead");
        }
        if self.max_len == 0 {
            return Err("max_len must be positive");
        }
        Ok(self)
    }
}

/// The structure file in an exported corrector folder.
pub const CONFIG_FILE: &'static str = "config.json";

/// The weights file in an exported corrector folder.
pub const WEIGHTS_FILE: &'static str = "model.safetensors";

/// The longest input, in bytes after tidying, the corrector is asked about: the
/// encoder never saw longer strings, and decoding them gives nonsense.
pub const MAX_INPUT_LETTERS: usize = 48;

/// An exported corrector folder counts only when both [`CONFIG_FILE`] and
/// [`WEIGHTS_FILE`] are files in it (the shell looks); the folder itself is the
/// answer.
pub fn find_corrector(dir: &str, config_is_file: bool, weights_is_file: bool) -> (found: Option<String>)
    ensures
        found is Some <==> config_is_file && weights_is_file,
        found matches Some(d) ==> d@ == dir@,
{
    if config_is_file && weights_is_file {
        Some(dir.to_owned())
    } else {
        None
    }
}

/// Whether every byte is an ASCII lowercase letter: what pinyin written without
/// spaces looks like.
pub open spec fn pinyin_letters(bytes: Seq<u8>) -> bool {
    forall|i: int| 0 <= i < bytes.len() ==> 0x61 <= #[trigger] bytes[i] <= 0x7a
}

/// The encoder input for `text`: tidied (see [`normalize`]), then [`BOS`], one id per
/// letter, [`EOS`]; `None` when tidying leaves nothing, more than
/// [`MAX_INPUT_LETTERS`] bytes, or anything but lowercase letters (input that does not
/// look like pinyin gets no nomination).
pub fn source_ids(text: &str) -> (ids: Option<Vec<u32>>)
    ensures
        ({
            let cleaned = normalized(text@);
            let bytes = encode_utf8(cleaned);
            match ids {
                Some(v) => cleaned.len() > 0 && bytes.len() <= MAX_INPUT_LETTERS && pinyin_letters(
                    bytes,
                ) && v@ == seq![BOS] + encoded(bytes) + seq![EOS],
                None => cleaned.len() == 0 || bytes.len() > MAX_INPUT_LETTERS || !pinyin_letters(
                    bytes,
                ),
            }
        }),
{
    let cleaned = normalize(text);
    let s = cleaned.as_str();
    let bytes = s.as_bytes();
    if s.is_empty() || bytes.len() > MAX_INPUT_LETTERS {
        return None;
    }
    let mut i: usize = 0;
    while i < bytes.len()
        invariant
            i <= bytes@.len(),
            bytes@ == encode_utf8(normalized(text@)),
            forall|j: int| 0 <= j < i ==> 0x61 <= #[trigger] bytes@[j] <= 0x7a,
        decreases bytes@.len() - i,
    {
        if bytes[i] < 0x61 || bytes[i] > 0x7a {
            return None;
        }
        i += 1;
    }
    let mut ids: Vec<u32> = Vec::new();
    ids.push(BOS);
    let mut body = encode(s);
    ids.append(&mut body);
    ids.push(EOS);
    proof {
        assert(ids@ =~= seq![BOS] + encoded(encode_utf8(normalized(text@))) + seq![EOS]);
    }
    Some(ids)
}

/// The rows a greedy decode starts from: `[BOS]` for each of `batch` inputs, none
/// finished.
pub fn greedy_start(batch: usize) -> (start: (Vec<Vec<u32>>, Vec<bool>))
    ensures
        start.0@.len() == batch,
        start.1@.len() == batch,
        forall|i: int| 0 <= i < batch ==> #[trigger] start.0@[i]@ == seq![BOS] && !start.1@[i],
{
    let mut rows: Vec<Vec<u32>> = Vec::new();
    let mut finished: Vec<bool> = Vec::new();
    let mut i: usize = 0;
    while i < batch
        invariant
            i <= batch,
            rows@.len() == i,
            finished@.len() == i,
            forall|k: int| 0 <= k < i ==> #[trigger] rows@[k]@ == seq![BOS] && !finished@[k],
        decreases batch - i,
    {
        let mut row: Vec<u32> = Vec::new();
        row.push(BOS);
        rows.push(row);
        finished.push(false);
        i += 1;
    }
    (rows, finished)
}

/// One step of greedy decoding: each row takes the id the model ranked first for it
/// (`next`); a row is finished once it has produced [`EOS`]. Answers whether every
/// row is finished, which ends decoding.
pub fn greedy_step(rows: &mut Vec<Vec<u32>>, finished: &mut Vec<bool>, next: &[u32]) -> (all_done: bool)
    requires
        old(rows)@.len() == next@.len(),
        old(finished)@.len() == next@.len(),
    ensures
        final(rows)@.len() == next@.len(),
        final(finished)@.len() == next@.len(),
        forall|i: int| 0 <= i < next@.len() ==> #[trigger] final(rows)@[i]@ == old(rows)@[i]@.push(next@[i]),
        forall|i: int|
            0 <= i < next@.len() ==> #[trigger] final(finished)@[i] == (old(finished)@[i] || next@[i]
                == EOS),
        all_done == forall|i: int| 0 <= i < next@.len() ==> #[trigger] final(finished)@[i],
{
    let mut i: usize = 0;
    let mut all_done = true;
    while i < next.len()
        invariant
            i <= next@.len(),
            rows@.len() == next@.len(),
            finished@.len() == next@.len(),
            forall|k: int| 0 <= k < i ==> #[trigger] rows@[k]@ == old(rows)@[k]@.push(next@[k]),
            forall|k: int| i <= k < next@.len() ==> #[trigger] rows@[k] == old(rows)@[k],
            forall|k: int|
                0 <= k < i ==> #[trigger] finished@[k] == (old(finished)@[k] || next@[k] == EOS),
            forall|k: int| i <= k < next@.len() ==> #[trigger] finished@[k] == old(finished)@[k],
            all_done == forall|k: int| 0 <= k < i ==> #[trigger] finished@[k],
        decreases next@.len() - i,
    {
        let id = next[i];
        rows[i].push(id);
        let done = finished[i] || id == EOS;
        let ghost prev = finished@;
        finished.set(i, done);
        proof {
            assert(finished@ == prev.update(i as int, done));
            assert((forall|k: int| 0 <= k < i ==> #[trigger] finished@[k]) == (forall|k: int|
                0 <= k < i ==> #[trigger] prev[k])) by {
                assert forall|k: int| 0 <= k < i implies finished@[k] == prev[k] by {}
            }
            assert((forall|k: int| 0 <= k < i + 1 ==> #[trigger] finished@[k]) == ((forall|k: int|
                0 <= k < i ==> #[trigger] finished@[k]) && finished@[i as int]));
        }
        all_done = all_done && done;
        i += 1;
    }
    all_done
}

/// A decoded row without its leading [`BOS`].
pub open spec fn after_bos(row: Seq<u32>) -> Seq<u32> {
    if row.len() == 0 {
        row
    } else {
        row.drop_first()
    }
}

/// The decoded rows without the [`BOS`] each started with.
pub fn without_bos(rows: Vec<Vec<u32>>) -> (out: Vec<Vec<u32>>)
    ensures
        out@.len() == rows@.len(),
        forall|i: int| 0 <= i < rows@.len() ==> #[trigger] out@[i]@ == after_bos(rows@[i]@),
{
    let mut out: Vec<Vec<u32>> = Vec::new();
    let mut i: usize = 0;
    while i < rows.len()
        invariant
            i <= rows@.len(),
            out@.len() == i,
            forall|k: int| 0 <= k < i ==> #[trigger] out@[k]@ == after_bos(rows@[k]@),
        decreases rows@.len() - i,
    {
        let row = &rows[i];
        let mut trimmed: Vec<u32> = Vec::new();
        if row.len() > 0 {
            let mut j: usize = 1;
            while j < row.len()
                invariant
                    1 <= j <= row@.len(),
                    trimmed@ == row@.subrange(1, j as int),
                decreases row@.len() - j,
            {
                trimmed.push(row[j]);
                proof {
                    assert(row@.subrange(1, j + 1) =~= row@.subrange(1, j as int).push(row@[j as int]));
                }
                j += 1;
            }
            proof {
                assert(row@.subrange(1, row@.len() as int) =~= row@.drop_first());
            }
        }
        out.push(trimmed);
        i += 1;
    }
    out
}

/// What a decode becomes for the engine: one nomination when it produced text; none
/// when it produced nothing or failed.
pub fn nominations(decoded: Option<String>) -> (v: Vec<String>)
    ensures
        match decoded {
            Some(t) if t@.len() > 0 => v@.len() == 1 && v@[0]@ == t@,
            _ => v@.len() == 0,
        },
{
    let mut v: Vec<String> = Vec::new();
    match decoded {
        Some(t) => {
            if !t.as_str().is_empty() {
                v.push(t);
            }
        },
        None => {},
    }
    v
}

} // verus!
