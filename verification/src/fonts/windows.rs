//! Windows: Segoe UI, Microsoft YaHei / JhengHei, Yu Gothic and Segoe UI Emoji, all in
//! the system font folder.

use vstd::prelude::*;
use vstd::string::{StrSliceExecFns, StringExecFns, StringSliceAdditionalSpecFns};

use super::{begins_with, starts_with, views};

verus! {

/// A Windows path joined the way `Path::join` joins a relative name: nothing to join
/// onto gives the name; a folder that already ends in a separator takes the name as
/// is; otherwise a backslash goes between.
pub open spec fn joined_path(dir: Seq<char>, name: Seq<char>) -> Seq<char> {
    if dir.len() == 0 {
        name
    } else if dir.last() == '\\' || dir.last() == '/' {
        dir + name
    } else {
        dir + seq!['\\'] + name
    }
}

/// Joins `name` onto the folder `dir`.
pub fn join(dir: &str, name: &str) -> (p: String)
    ensures
        p@ == joined_path(dir@, name@),
{
    let n = dir.unicode_len();
    if n == 0 {
        return String::from_str(name);
    }
    let last = dir.get_char(n - 1);
    let mut p = String::from_str(dir);
    if last != '\\' && last != '/' {
        p.append("\\");
    }
    p.append(name);
    proof {
        reveal_strlit("\\");
        assert(dir@.last() == last);
    }
    p
}

/// The system font folder: `Fonts` under the Windows folder that `WINDIR` names
/// (`windir`, as the shell read it), or under `C:\Windows` when it is unset.
pub fn fonts_dir(windir: Option<&str>) -> (p: String)
    ensures
        p@ == joined_path(
            match windir {
                Some(w) => w@,
                None => "C:\\Windows"@,
            },
            "Fonts"@,
        ),
{
    match windir {
        Some(w) => join(w, "Fonts"),
        None => join("C:\\Windows", "Fonts"),
    }
}

/// The UI font: Segoe UI, then Arial.
pub fn ui_fonts(dir: &str) -> (v: Vec<String>)
    ensures
        views(v@) == seq![joined_path(dir@, "segoeui.ttf"@), joined_path(dir@, "arial.ttf"@)],
{
    let mut v: Vec<String> = Vec::new();
    v.push(join(dir, "segoeui.ttf"));
    v.push(join(dir, "arial.ttf"));
    proof {
        assert(views(v@) =~= seq![joined_path(dir@, "segoeui.ttf"@), joined_path(dir@, "arial.ttf"@)]);
    }
    v
}

/// Whether the locale asks for traditional Chinese glyphs (Taiwan or Hong Kong).
pub open spec fn traditional_locale(locale: Seq<u8>) -> bool {
    begins_with(locale, "zh-TW".spec_bytes()) || begins_with(locale, "zh-HK".spec_bytes())
}

/// Whether the locale is Japanese.
pub open spec fn japanese_locale(locale: Seq<u8>) -> bool {
    begins_with(locale, "ja".spec_bytes())
}

/// The Han font the locale wants (JhengHei for Taiwan and Hong Kong, none for
/// Japanese, YaHei otherwise), then Yu Gothic as the Japanese fallback.
pub fn script_fonts(locale: &str, dir: &str) -> (v: Vec<String>)
    ensures
        ({
            let yu = seq![joined_path(dir@, "YuGothR.ttc"@), joined_path(dir@, "yugothm.ttc"@)];
            views(v@) == if traditional_locale(locale.spec_bytes()) {
                seq![joined_path(dir@, "msjh.ttc"@)] + yu
            } else if japanese_locale(locale.spec_bytes()) {
                yu
            } else {
                seq![joined_path(dir@, "msyh.ttc"@)] + yu
            }
        }),
{
    let mut fonts: Vec<String> = Vec::new();
    if starts_with(locale, "zh-TW") || starts_with(locale, "zh-HK") {
        fonts.push(join(dir, "msjh.ttc"));
    } else if !starts_with(locale, "ja") {
        fonts.push(join(dir, "msyh.ttc"));
    }
    let ghost head = fonts@;
    fonts.push(join(dir, "YuGothR.ttc"));
    fonts.push(join(dir, "yugothm.ttc"));
    proof {
        let yu = seq![joined_path(dir@, "YuGothR.ttc"@), joined_path(dir@, "yugothm.ttc"@)];
        assert(views(fonts@) =~= views(head) + yu);
        assert(views(Seq::<String>::empty()) =~= Seq::<Seq<char>>::empty());
    }
    fonts
}

/// The emoji font: Segoe UI Emoji.
pub fn emoji_fonts(dir: &str) -> (v: Vec<String>)
    ensures
        views(v@) == seq![joined_path(dir@, "seguiemj.ttf"@)],
{
    let mut v: Vec<String> = Vec::new();
    v.push(join(dir, "seguiemj.ttf"));
    proof {
        assert(views(v@) =~= seq![joined_path(dir@, "seguiemj.ttf"@)]);
    }
    v
}

} // verus!
