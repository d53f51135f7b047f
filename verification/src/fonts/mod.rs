//! Which font files the renderer loads: not a scan of the system font folders, but
//! each platform's short list of the UI font, the Chinese and Japanese fonts and the
//! emoji font; the user's chosen UI font; and the font picker's filtered list.

pub mod linux;
pub mod macos;
pub mod order;
pub mod picker;
pub mod windows;

use vstd::prelude::*;
use vstd::string::{StrSliceExecFns, StringExecFns, StringSliceAdditionalSpecFns};

use crate::error::RenderError;
use crate::text::{ascii_folded, eq_ignore_ascii_case};

verus! {

/// A user-chosen UI font: a family name and its font files, looked up by the shell in
/// the platform's font registry.
#[derive(Debug, Clone, PartialEq, Eq)]
pub struct UiFont {
    /// The family name, such as `LXGW WenKai`.
    pub family: String,
    /// The family's files; empty when the shell found none.
    pub files: Vec<String>,
}

/// The views of a list of strings.
pub open spec fn views(v: Seq<String>) -> Seq<Seq<char>> {
    v.map_values(|s: String| s@)
}

/// Whether the bytes `s` begin with the bytes `prefix`.
pub open spec fn begins_with(s: Seq<u8>, prefix: Seq<u8>) -> bool {
    prefix.len() <= s.len() && s.take(prefix.len() as int) == prefix
}

/// Whether `s` begins with `prefix`, byte for byte.
pub fn starts_with(s: &str, prefix: &str) -> (r: bool)
    ensures
        r == begins_with(s.spec_bytes(), prefix.spec_bytes()),
{
    crate::text::bytes_start_with(s.as_bytes(), prefix.as_bytes())
}

/// A list built from string literals.
pub(crate) fn owned(items: &[&str]) -> (v: Vec<String>)
    ensures
        v@.len() == items@.len(),
        forall|i: int| 0 <= i < items@.len() ==> #[trigger] v@[i]@ == items@[i]@,
{
    let mut v: Vec<String> = Vec::new();
    let mut i: usize = 0;
    while i < items.len()
        invariant
            i <= items@.len(),
            v@.len() == i,
            forall|j: int| 0 <= j < i ==> #[trigger] v@[j]@ == items@[j]@,
        decreases items@.len() - i,
    {
        v.push(String::from_str(items[i]));
        i += 1;
    }
    v
}

/// `names` with repeats dropped: each name once, where it first occurs.
pub open spec fn first_seen(names: Seq<Seq<char>>) -> Seq<Seq<char>>
    decreases names.len(),
{
    if names.len() == 0 {
        names
    } else {
        let rest = first_seen(names.drop_last());
        if rest.contains(names.last()) {
            rest
        } else {
            rest.push(names.last())
        }
    }
}

/// Each family is listed once, and exactly the families loaded are listed.
pub proof fn lemma_first_seen(names: Seq<Seq<char>>)
    ensures
        first_seen(names).no_duplicates(),
        forall|n: Seq<char>| #[trigger] first_seen(names).contains(n) <==> names.contains(n),
    decreases names.len(),
{
    if names.len() > 0 {
        lemma_first_seen(names.drop_last());
        let rest = first_seen(names.drop_last());
        assert forall|n: Seq<char>| #[trigger] first_seen(names).contains(n) <==> names.contains(n) by {
            if names.contains(n) {
                let k = choose|k: int| 0 <= k < names.len() && names[k] == n;
                if k < names.len() - 1 {
                    assert(names.drop_last()[k] == n);
                }
            }
            if names.drop_last().contains(n) {
                let k = choose|k: int| 0 <= k < names.drop_last().len() && names.drop_last()[k] == n;
                assert(names[k] == n);
            }
            if !rest.contains(names.last()) {
                if rest.push(names.last()).contains(n) {
                    let k = choose|k: int| 0 <= k < rest.push(names.last()).len() && rest.push(names.last())[k] == n;
                    if k < rest.len() {
                        assert(rest[k] == n);
                    }
                }
                if rest.contains(n) {
                    let k = choose|k: int| 0 <= k < rest.len() && rest[k] == n;
                    assert(rest.push(names.last())[k] == n);
                }
                assert(rest.push(names.last())[rest.len() as int] == names.last());
            }
        }
    }
}

/// The loaded family names, each once, in loading order: `names` are the families of
/// every loaded face, face by face.
pub fn families(names: &[String]) -> (v: Vec<String>)
    ensures
        views(v@) == first_seen(views(names@)),
{
    let mut v: Vec<String> = Vec::new();
    let mut i: usize = 0;
    while i < names.len()
        invariant
            i <= names@.len(),
            views(v@) == first_seen(views(names@).take(i as int)),
        decreases names@.len() - i,
    {
        let mut seen = false;
        let mut j: usize = 0;
        while j < v.len()
            invariant
                j <= v@.len(),
                i < names@.len(),
                seen == exists|k: int| 0 <= k < j && #[trigger] v@[k]@ == names@[i as int]@,
            decreases v@.len() - j,
        {
            if v[j] == names[i] {
                seen = true;
            }
            j += 1;
        }
        let ghost before = v@;
        proof {
            let all = views(names@);
            assert(all.take(i + 1).drop_last() =~= all.take(i as int));
            assert(all.take(i + 1).last() == names@[i as int]@);
            if seen {
                let k = choose|k: int| 0 <= k < v@.len() && #[trigger] v@[k]@ == names@[i as int]@;
                assert(views(v@)[k] == names@[i as int]@);
            } else {
                assert forall|k: int| 0 <= k < views(v@).len() implies views(v@)[k] != names@[i as int]@ by {
                    assert(v@[k]@ == views(v@)[k]);
                }
            }
        }
        if !seen {
            v.push(names[i].clone());
            proof {
                assert(views(v@) =~= views(before).push(names@[i as int]@));
            }
        }
        i += 1;
    }
    proof {
        assert(views(names@).take(names@.len() as int) =~= views(names@));
    }
    v
}

/// `names` with each run of equal neighbours collapsed to one.
pub open spec fn runs_collapsed(names: Seq<Seq<char>>) -> Seq<Seq<char>>
    decreases names.len(),
{
    if names.len() == 0 {
        names
    } else {
        let rest = runs_collapsed(names.drop_last());
        if rest.len() > 0 && rest.last() == names.last() {
            rest
        } else {
            rest.push(names.last())
        }
    }
}

/// The family of each shaped glyph, neighbours that agree merged: which fonts the
/// fallback chain actually used, in order.
pub fn traced_families(names: &[String]) -> (v: Vec<String>)
    ensures
        views(v@) == runs_collapsed(views(names@)),
{
    let mut v: Vec<String> = Vec::new();
    let mut i: usize = 0;
    while i < names.len()
        invariant
            i <= names@.len(),
            views(v@) == runs_collapsed(views(names@).take(i as int)),
        decreases names@.len() - i,
    {
        let ghost before = v@;
        proof {
            let all = views(names@);
            assert(all.take(i + 1).drop_last() =~= all.take(i as int));
            assert(all.take(i + 1).last() == names@[i as int]@);
            if v@.len() > 0 {
                assert(views(v@).last() == v@[v@.len() - 1]@);
            }
        }
        let repeat = v.len() > 0 && v[v.len() - 1] == names[i];
        if !repeat {
            v.push(names[i].clone());
            proof {
                assert(views(v@) =~= views(before).push(names@[i as int]@));
            }
        }
        i += 1;
    }
    proof {
        assert(views(names@).take(names@.len() as int) =~= views(names@));
    }
    v
}

/// Whether some loaded family is named `family`, ignoring ASCII case.
pub open spec fn names_family(names: Seq<Seq<char>>, family: Seq<char>) -> bool {
    exists|i: int| 0 <= i < names.len() && ascii_folded(#[trigger] names[i]) == ascii_folded(family)
}

/// The user's UI font takes over only when at least one of its files loaded
/// (`loaded`) and some loaded face carries its family name (`names`, every loaded
/// face's families); otherwise the system UI font stays.
pub fn chosen_family(font: &UiFont, loaded: usize, names: &[String]) -> (chosen: Option<String>)
    ensures
        match chosen {
            Some(f) => loaded > 0 && names_family(views(names@), font.family@) && f@ == font.family@,
            None => !(loaded > 0 && names_family(views(names@), font.family@)),
        },
{
    if loaded == 0 {
        return None;
    }
    let mut i: usize = 0;
    while i < names.len()
        invariant
            i <= names@.len(),
            loaded > 0,
            forall|k: int| 0 <= k < i ==> ascii_folded(#[trigger] views(names@)[k]) != ascii_folded(
                font.family@,
            ),
        decreases names@.len() - i,
    {
        proof {
            assert(views(names@)[i as int] == names@[i as int]@);
        }
        if eq_ignore_ascii_case(names[i].as_str(), font.family.as_str()) {
            return Some(font.family.clone());
        }
        i += 1;
    }
    None
}

/// The UI family: the user's font when it was taken, else the first family of the
/// system UI face, else `sans-serif`.
pub fn ui_family(custom: Option<String>, system_first: Option<String>) -> (f: String)
    ensures
        f@ == match custom {
            Some(c) => c@,
            None => match system_first {
                Some(s) => s@,
                None => "sans-serif"@,
            },
        },
{
    match custom {
        Some(c) => c,
        None => match system_first {
            Some(s) => s,
            None => String::from_str("sans-serif"),
        },
    }
}

/// The UI family a font library is built with. When no face of the platform's UI
/// font list loaded (`system_ui` is `None`) the build fails with
/// [`RenderError::NoUiFont`] naming the files tried (`tried`), even when the user's
/// own font loaded; otherwise the family is [`ui_family`] of the user's font, if it was
/// taken (`custom`), and the first family of the system UI face.
pub fn library_ui_family(
    custom: Option<String>,
    system_ui: Option<Option<String>>,
    tried: Vec<String>,
) -> (r: Result<String, RenderError>)
    ensures
        match system_ui {
            None => r matches Err(RenderError::NoUiFont { tried: t }) && t@ == tried@,
            Some(first) => r matches Ok(f) && f@ == match custom {
                Some(c) => c@,
                None => match first {
                    Some(s) => s@,
                    None => "sans-serif"@,
                },
            },
        },
{
    match system_ui {
        None => Err(RenderError::NoUiFont { tried }),
        Some(first) => Ok(ui_family(custom, first)),
    }
}

/// A family the user may pick: names beginning with `.` are the system's private
/// fonts.
pub open spec fn pickable(name: Seq<char>) -> bool {
    name.len() == 0 || name[0] != '.'
}

/// The pickable families, `names` in their order.
pub open spec fn pickable_families(names: Seq<Seq<char>>) -> Seq<Seq<char>>
    decreases names.len(),
{
    if names.len() == 0 {
        names
    } else {
        let rest = pickable_families(names.drop_last());
        if pickable(names.last()) {
            rest.push(names.last())
        } else {
            rest
        }
    }
}

/// The families offered to the user, in the system's order, without the private ones.
pub fn available_families(names: &[String]) -> (v: Vec<String>)
    ensures
        views(v@) == pickable_families(views(names@)),
{
    let mut v: Vec<String> = Vec::new();
    let mut i: usize = 0;
    while i < names.len()
        invariant
            i <= names@.len(),
            views(v@) == pickable_families(views(names@).take(i as int)),
        decreases names@.len() - i,
    {
        let name = names[i].as_str();
        let keep = name.unicode_len() == 0 || name.get_char(0) != '.';
        let ghost before = v@;
        proof {
            let all = views(names@);
            assert(all.take(i + 1).drop_last() =~= all.take(i as int));
            assert(all.take(i + 1).last() == names@[i as int]@);
        }
        if keep {
            v.push(names[i].clone());
            proof {
                assert(views(v@) =~= views(before).push(names@[i as int]@));
            }
        }
        i += 1;
    }
    proof {
        assert(views(names@).take(names@.len() as int) =~= views(names@));
    }
    v
}

} // verus!
