//! The font picker's state: every family the system offers, the rows the search field
//! leaves visible, and the family the configuration names. The default entry always
//! heads the list; filtering is a case-insensitive substring match.

use vstd::prelude::*;
use vstd::string::{StrSliceExecFns, StringExecFns};

use super::views;
use crate::text::{
    ascii_folded, eq_ignore_ascii_case, has_substring, lowercase, to_lowercase, contains, trim,
    trimmed,
};

verus! {

/// The first row of the list and the button's text when no font is chosen.
pub const DEFAULT_FONT_LABEL: &'static str = "系统默认";

/// A family stays visible under the search text `needle` (already trimmed and
/// lowered): every family does when it is empty; otherwise its lowercase must contain
/// it.
pub open spec fn shown(family: Seq<char>, needle: Seq<char>) -> bool {
    needle.len() == 0 || has_substring(lowercase(family), needle)
}

/// The families that stay visible under `needle`, in their order.
pub open spec fn filtered(families: Seq<Seq<char>>, needle: Seq<char>) -> Seq<Seq<char>>
    decreases families.len(),
{
    if families.len() == 0 {
        families
    } else {
        let rest = filtered(families.drop_last(), needle);
        if shown(families.last(), needle) {
            rest.push(families.last())
        } else {
            rest
        }
    }
}

/// The first `n` families that stay visible under `needle`, each judged by its
/// lowered name in `lowered` (same positions), order kept.
pub open spec fn kept_rows(
    families: Seq<Seq<char>>,
    lowered: Seq<Seq<char>>,
    needle: Seq<char>,
    n: nat,
) -> Seq<Seq<char>>
    decreases n,
{
    if n == 0 {
        Seq::empty()
    } else {
        let rest = kept_rows(families, lowered, needle, (n - 1) as nat);
        if needle.len() == 0 || has_substring(lowered[n - 1], needle) {
            rest.push(families[n - 1])
        } else {
            rest
        }
    }
}

/// With the lowered names the lowercase of the families, keeping by lowered name is
/// the filter of [`filtered`].
proof fn lemma_kept_rows_filtered(
    families: Seq<Seq<char>>,
    lowered: Seq<Seq<char>>,
    needle: Seq<char>,
    n: nat,
)
    requires
        n <= families.len(),
        lowered.len() == families.len(),
        forall|i: int| 0 <= i < families.len() ==> #[trigger] lowered[i] == lowercase(families[i]),
    ensures
        kept_rows(families, lowered, needle, n) == filtered(families.take(n as int), needle),
    decreases n,
{
    if n > 0 {
        lemma_kept_rows_filtered(families, lowered, needle, (n - 1) as nat);
        assert(families.take(n as int).drop_last() =~= families.take(n - 1));
        assert(families.take(n as int).last() == families[n - 1]);
        assert(lowered[n - 1] == lowercase(families[n - 1]));
    }
}

/// The rows for the search text `text`: the default entry, then the matching families.
pub open spec fn visible_rows(families: Seq<Seq<char>>, text: Seq<char>) -> Seq<Seq<char>> {
    seq![DEFAULT_FONT_LABEL@] + filtered(families, lowercase(trimmed(text)))
}

/// The first row at or after `i` whose name equals `name` ignoring ASCII case, if any.
pub open spec fn find_row(rows: Seq<Seq<char>>, name: Seq<char>, i: int) -> Option<int>
    decreases rows.len() - i,
{
    if i < 0 || i >= rows.len() {
        None
    } else if ascii_folded(rows[i]) == ascii_folded(name) {
        Some(i)
    } else {
        find_row(rows, name, i + 1)
    }
}

/// The row to select for `name`: its first match, or the default entry (row 0) when
/// there is no name or no match.
pub open spec fn row_for(rows: Seq<Seq<char>>, name: Option<Seq<char>>) -> int {
    match name {
        Some(n) => match find_row(rows, n, 0) {
            Some(i) => i,
            None => 0,
        },
        None => 0,
    }
}

/// The button's text for the configured font: the font, trimmed, or the default entry
/// when that leaves nothing.
pub open spec fn button_label(font: Seq<char>) -> Seq<char> {
    if trimmed(font).len() == 0 {
        DEFAULT_FONT_LABEL@
    } else {
        trimmed(font)
    }
}

/// The picker's state.
pub struct PickerState {
    /// Every family, in the order the system lists them.
    families: Vec<String>,
    /// The rows shown: the default entry first, then the families the filter keeps.
    visible: Vec<String>,
    /// The configured family, trimmed; empty for the system font.
    current: String,
}

impl PickerState {
    #[verifier::type_invariant]
    spec fn default_first(self) -> bool {
        self.visible@.len() >= 1 && self.visible@[0]@ == DEFAULT_FONT_LABEL@
    }

    pub closed spec fn families(self) -> Seq<Seq<char>> {
        views(self.families@)
    }

    pub closed spec fn visible(self) -> Seq<Seq<char>> {
        views(self.visible@)
    }

    pub closed spec fn current(self) -> Seq<char> {
        self.current@
    }

    /// The rows under a search: the default entry, then each family whose lowered name
    /// (`lowered`, at the same position) contains `needle` (already trimmed and
    /// lowered), or every family when `needle` is empty.
    pub fn filter_rows(families: &[String], lowered: &[String], needle: &str) -> (rows: Vec<String>)
        requires
            lowered@.len() == families@.len(),
        ensures
            views(rows@) == seq![DEFAULT_FONT_LABEL@] + kept_rows(
                views(families@),
                views(lowered@),
                needle@,
                families@.len(),
            ),
    {
        let blank = needle.unicode_len() == 0;
        let mut rows: Vec<String> = Vec::new();
        rows.push(String::from_str(DEFAULT_FONT_LABEL));
        let mut i: usize = 0;
        while i < families.len()
            invariant
                i <= families@.len(),
                lowered@.len() == families@.len(),
                blank == (needle@.len() == 0),
                views(rows@) == seq![DEFAULT_FONT_LABEL@] + kept_rows(
                    views(families@),
                    views(lowered@),
                    needle@,
                    i as nat,
                ),
            decreases families@.len() - i,
        {
            let keep = blank || contains(lowered[i].as_str(), needle);
            let ghost before = rows@;
            if keep {
                rows.push(families[i].clone());
            }
            proof {
                assert(views(lowered@)[i as int] == lowered@[i as int]@);
                assert(views(families@)[i as int] == families@[i as int]@);
                if keep {
                    assert(views(rows@) =~= views(before).push(families@[i as int]@));
                } else {
                    assert(views(rows@) =~= views(before));
                }
            }
            i += 1;
        }
        rows
    }

    /// A picker over `families`, all of them visible, no font chosen.
    pub fn new(families: Vec<String>) -> (p: Self)
        ensures
            p.families() == views(families@),
            p.visible() == seq![DEFAULT_FONT_LABEL@] + views(families@),
            p.current() == Seq::<char>::empty(),
    {
        let mut visible: Vec<String> = Vec::new();
        visible.push(String::from_str(DEFAULT_FONT_LABEL));
        let mut i: usize = 0;
        while i < families.len()
            invariant
                i <= families@.len(),
                visible@.len() == i + 1,
                visible@[0]@ == DEFAULT_FONT_LABEL@,
                forall|j: int| 0 <= j < i ==> #[trigger] visible@[j + 1]@ == families@[j]@,
            decreases families@.len() - i,
        {
            visible.push(families[i].clone());
            i += 1;
        }
        proof {
            assert(views(visible@) =~= seq![DEFAULT_FONT_LABEL@] + views(families@)) by {
                assert forall|j: int| 0 <= j < visible@.len() implies #[trigger] views(visible@)[j]
                    == (seq![DEFAULT_FONT_LABEL@] + views(families@))[j] by {
                    if j > 0 {
                        assert(visible@[(j - 1) + 1]@ == families@[j - 1]@);
                    }
                }
            }
        }
        PickerState { families, visible, current: String::new() }
    }

    /// The first `n` families that stay visible under `needle`, each judged by its
/// lowered name in `lowered` (same positions), order kept.
pub open spec fn kept_rows(
    families: Seq<Seq<char>>,
    lowered: Seq<Seq<char>>,
    needle: Seq<char>,
    n: nat,
) -> Seq<Seq<char>>
    decreases n,
{
    if n == 0 {
        Seq::empty()
    } else {
        let rest = kept_rows(families, lowered, needle, (n - 1) as nat);
        if needle.len() == 0 || has_substring(lowered[n - 1], needle) {
            rest.push(families[n - 1])
        } else {
            rest
        }
    }
}

/// With the lowered names the lowercase of the families, keeping by lowered name is
/// the filter of [`filtered`].
proof fn lemma_kept_rows_filtered(
    families: Seq<Seq<char>>,
    lowered: Seq<Seq<char>>,
    needle: Seq<char>,
    n: nat,
)
    requires
        n <= families.len(),
        lowered.len() == families.len(),
        forall|i: int| 0 <= i < families.len() ==> #[trigger] lowered[i] == lowercase(families[i]),
    ensures
        kept_rows(families, lowered, needle, n) == filtered(families.take(n as int), needle),
    decreases n,
{
    if n > 0 {
        lemma_kept_rows_filtered(families, lowered, needle, (n - 1) as nat);
        assert(families.take(n as int).drop_last() =~= families.take(n - 1));
        assert(families.take(n as int).last() == families[n - 1]);
        assert(lowered[n - 1] == lowercase(families[n - 1]));
    }
}

/// The rows for the search text `text` (every family when it is blank).
    pub fn apply_filter(&mut self, text: &str)
        ensures
            final(self).families() == old(self).families(),
            final(self).current() == old(self).current(),
            final(self).visible() == visible_rows(old(self).families(), text@),
    {
        proof {
            use_type_invariant(&*self);
        }
        let needle = to_lowercase(trim(text));
        let mut lowered: Vec<String> = Vec::new();
        let mut i: usize = 0;
        while i < self.families.len()
            invariant
                i <= self.families@.len(),
                lowered@.len() == i,
                forall|k: int| 0 <= k < i ==> #[trigger] lowered@[k]@ == lowercase(self.families@[k]@),
            decreases self.families@.len() - i,
        {
            lowered.push(to_lowercase(self.families[i].as_str()));
            i += 1;
        }
        let rows = Self::filter_rows(self.families.as_slice(), lowered.as_slice(), needle.as_str());
        proof {
            let fam = views(self.families@);
            let low = views(lowered@);
            assert forall|k: int| 0 <= k < fam.len() implies #[trigger] low[k] == lowercase(fam[k]) by {
                assert(low[k] == lowered@[k]@);
                assert(fam[k] == self.families@[k]@);
            }
            lemma_kept_rows_filtered(fam, low, needle@, fam.len());
            assert(fam.take(fam.len() as int) =~= fam);
            assert(views(rows@).len() == rows@.len());
            assert(views(rows@)[0] == DEFAULT_FONT_LABEL@);
            assert(views(rows@)[0] == rows@[0]@);
        }
        self.visible = rows;
    }

    /// The row to select for `name`: the first visible row equal to it ignoring ASCII
    /// case, or row 0 (the default entry) for no name or no match.
    pub fn select(&self, name: Option<&str>) -> (row: usize)
        ensures
            row == row_for(
                self.visible(),
                match name {
                    Some(n) => Some(n@),
                    None => None,
                },
            ),
            row < self.visible().len(),
    {
        proof {
            use_type_invariant(self);
        }
        let target = match name {
            Some(n) => n,
            None => return 0,
        };
        let mut i: usize = 0;
        while i < self.visible.len()
            invariant
                i <= self.visible@.len(),
                name == Some(target),
                find_row(views(self.visible@), target@, 0) == find_row(
                    views(self.visible@),
                    target@,
                    i as int,
                ),
            decreases self.visible@.len() - i,
        {
            proof {
                assert(views(self.visible@)[i as int] == self.visible@[i as int]@);
            }
            if eq_ignore_ascii_case(self.visible[i].as_str(), target) {
                proof {
                    assert(find_row(views(self.visible@), target@, i as int) == Some(i as int));
                }
                return i;
            }
            i += 1;
        }
        proof {
            use_type_invariant(self);
        }
        0
    }

    /// The name in visible row `row`, if there is one (`-1` is the table's "nothing
    /// selected").
    pub fn selected_name(&self, row: isize) -> (name: Option<String>)
        ensures
            match name {
                Some(n) => 0 <= row < self.visible().len() && n@ == self.visible()[row as int],
                None => !(0 <= row < self.visible().len()),
            },
    {
        if row < 0 || row as usize >= self.visible.len() {
            return None;
        }
        Some(self.visible[row as usize].clone())
    }

    /// The configuration changed: remember the font, trimmed; answer the button's text
    /// and the row to select.
    pub fn set_current(&mut self, font: &str) -> (shown: (String, usize))
        ensures
            final(self).families() == old(self).families(),
            final(self).visible() == old(self).visible(),
            final(self).current() == trimmed(font@),
            shown.0@ == button_label(font@),
            shown.1 == row_for(
                old(self).visible(),
                if trimmed(font@).len() == 0 {
                    None
                } else {
                    Some(trimmed(font@))
                },
            ),
    {
        proof {
            use_type_invariant(&*self);
        }
        let font = trim(font);
        self.current = String::from_str(font);
        let label = if font.unicode_len() == 0 {
            String::from_str(DEFAULT_FONT_LABEL)
        } else {
            String::from_str(font)
        };
        let row = if font.unicode_len() == 0 {
            self.select(None)
        } else {
            self.select(Some(font))
        };
        (label, row)
    }

    /// The list opens: the filter is cleared and the current font selected; answers the
    /// row.
    pub fn open(&mut self) -> (row: usize)
        ensures
            final(self).families() == old(self).families(),
            final(self).current() == old(self).current(),
            final(self).visible() == visible_rows(old(self).families(), Seq::<char>::empty()),
            row == row_for(
                final(self).visible(),
                if old(self).current().len() == 0 {
                    None
                } else {
                    Some(old(self).current())
                },
            ),
    {
        proof {
            reveal_strlit("");
            assert(""@ =~= Seq::<char>::empty());
        }
        self.apply_filter("");
        if self.current.as_str().unicode_len() == 0 {
            self.select(None)
        } else {
            let current = self.current.clone();
            self.select(Some(current.as_str()))
        }
    }

    /// The search text changed while `row` was selected: filter, then select the same
    /// family again if it is still visible (row 0 otherwise); answers the new row.
    pub fn filter_changed(&mut self, text: &str, row: isize) -> (new_row: usize)
        ensures
            final(self).families() == old(self).families(),
            final(self).current() == old(self).current(),
            final(self).visible() == visible_rows(old(self).families(), text@),
            new_row == row_for(
                final(self).visible(),
                if 0 <= row < old(self).visible().len() {
                    Some(old(self).visible()[row as int])
                } else {
                    None
                },
            ),
    {
        let keep = self.selected_name(row);
        self.apply_filter(text);
        match keep {
            Some(name) => self.select(Some(name.as_str())),
            None => self.select(None),
        }
    }
}

} // verus!
