//! The commit-and-refresh chain shared by keys and mouse clicks, as decisions: whether
//! to read the text before the caret, which marked text to show, whether to ask for a
//! prediction, and what committing a candidate or the raw pinyin does. The shell owns
//! the session, the text client and the engine's queries; it performs what these say.

use vstd::prelude::*;
use vstd::string::StringExecFns;

verus! {

/// The sentence scorer reads the text before the caret once per composition: on its
/// first letter, with a scorer attached, and never under Secure Input.
pub fn context_wanted(has_scorer: bool, composition_chars: usize, secure_input: bool) -> (r: bool)
    ensures
        r == (has_scorer && composition_chars == 1 && !secure_input),
{
    has_scorer && composition_chars == 1 && !secure_input
}

/// What a refresh shows: the query's marked text and cursor when the query succeeded,
/// else the raw letters and their cursor; in the application only when the preedit is
/// shown inline (else an empty marked text at 0). The third part says whether to ask
/// for a prediction: only when the marked text is not empty.
pub fn refresh_plan(raw: &str, raw_cursor: usize, query: Option<(String, usize)>, inline: bool) -> (p: (
    String,
    usize,
    bool,
))
    ensures
        p.0@ == (if inline {
            match query {
                Some((m, _)) => m@,
                None => raw@,
            }
        } else {
            ""@
        }),
        p.1 == (if inline {
            match query {
                Some((_, c)) => c,
                None => raw_cursor,
            }
        } else {
            0
        }),
        p.2 == (match query {
            Some((m, _)) => m@.len() > 0,
            None => raw@.len() > 0,
        }),
{
    let (marked, cursor) = match query {
        Some((m, c)) => (m, c),
        None => (String::from_str(raw), raw_cursor),
    };
    let predict = !marked.as_str().is_empty();
    proof {
        reveal_strlit("");
    }
    if inline {
        (marked, cursor, predict)
    } else {
        (String::new(), 0, predict)
    }
}

/// What to do about a prediction request.
#[derive(Debug, Clone, Copy, PartialEq, Eq, Structural)]
pub enum PredictionAction {
    /// Prediction is off: nothing.
    Skip,
    /// Secure Input is on: never send; cancel any request in flight.
    Cancel,
    /// Read the surrounding text and send the request.
    Request,
}

/// Prediction is asked for only when it is on, and never under Secure Input.
pub fn prediction_step(enabled: bool, secure_input: bool) -> (a: PredictionAction)
    ensures
        !enabled ==> a == PredictionAction::Skip,
        enabled && secure_input ==> a == PredictionAction::Cancel,
        enabled && !secure_input ==> a == PredictionAction::Request,
{
    if !enabled {
        PredictionAction::Skip
    } else if secure_input {
        PredictionAction::Cancel
    } else {
        PredictionAction::Request
    }
}

/// What committing the `index`-th candidate does.
#[derive(Debug, Clone, Copy, PartialEq, Eq, Structural)]
pub enum CommitStep {
    /// Commit that candidate; the rest of the pinyin keeps composing.
    Candidate,
    /// The index is an empty cloud slot of the page: nothing to commit, but the key
    /// is handled.
    EmptySlot,
    /// No candidate there at all: commit the pinyin itself.
    Raw,
}

/// Committing the `index`-th candidate: the candidate when there is one
/// (`has_candidate`); an empty slot when the index is still within the page's `slots`;
/// otherwise the raw pinyin.
pub fn commit_index(index: usize, has_candidate: bool, slots: usize) -> (s: CommitStep)
    ensures
        has_candidate ==> s == CommitStep::Candidate,
        !has_candidate && index < slots ==> s == CommitStep::EmptySlot,
        !has_candidate && index >= slots ==> s == CommitStep::Raw,
{
    if has_candidate {
        CommitStep::Candidate
    } else if index < slots {
        CommitStep::EmptySlot
    } else {
        CommitStep::Raw
    }
}

/// Committing the raw pinyin the engine gave up (`raw`, none when it had none): the
/// text to insert, or `None` when there is nothing (the key is then not handled).
pub fn commit_raw(raw: Option<String>) -> (text: Option<String>)
    ensures
        match raw {
            Some(r) if r@.len() > 0 => text == Some(r),
            _ => text is None,
        },
{
    match raw {
        Some(r) => if r.as_str().is_empty() {
            None
        } else {
            Some(r)
        },
        None => None,
    }
}

/// Turning the page (`turned` when it was not already the first or last): the key is
/// always handled; the window is redrawn only when the page turned.
pub fn turn_page(turned: bool) -> (r: (bool, bool))
    ensures
        r.0,
        r.1 == turned,
{
    (true, turned)
}

/// The candidates a refresh resets the session to (back on page 0, then redrawn at
/// the caret): the query's, or none when the query failed.
pub fn refreshed_candidates<T>(query: Option<Vec<T>>) -> (c: Vec<T>)
    ensures
        c@ == match query {
            Some(v) => v@,
            None => Seq::<T>::empty(),
        },
{
    match query {
        Some(v) => v,
        None => Vec::new(),
    }
}

/// Committing a candidate, once the engine has answered (`text`, none when the commit
/// produced nothing): the key is handled exactly when there is text, and that text is
/// inserted once before the refresh.
pub fn commit_candidate(text: Option<String>) -> (r: (bool, Option<String>))
    ensures
        r.0 == (text is Some),
        r.1 == text,
{
    let handled = text.is_some();
    (handled, text)
}

/// Accepting the sentence completion on offer (`sentence`, none when there is none):
/// handled exactly when there is one; it is then accepted, inserted once and the
/// composition refreshed.
pub fn accept_sentence(sentence: Option<String>) -> (r: (bool, Option<String>))
    ensures
        r.0 == (sentence is Some),
        r.1 == sentence,
{
    let handled = sentence.is_some();
    (handled, sentence)
}

/// A click on a cell of the page (`index`, the candidate index under it; none for a
/// cell with no candidate behind it, such as a cloud placeholder): the index to commit,
/// or `None` when the click does nothing and is not handled.
pub fn commit_clicked(index: Option<usize>) -> (r: Option<usize>)
    ensures
        r == index,
{
    index
}

} // verus!
