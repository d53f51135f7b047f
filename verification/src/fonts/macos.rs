//! macOS: SF and PingFang live in private system locations that move between releases,
//! so each role gets a few candidates.

use vstd::prelude::*;
use vstd::string::{StringExecFns, StringSliceAdditionalSpecFns};

use super::{begins_with, owned, starts_with, views};

verus! {

/// The UI font: SF Pro (file `SFNS`, family `.SF NS`), then Helvetica.
pub fn ui_fonts() -> (v: Vec<String>)
    ensures
        views(v@) == seq!["/System/Library/Fonts/SFNS.ttf"@, "/System/Library/Fonts/Helvetica.ttc"@],
{
    let v = owned(&["/System/Library/Fonts/SFNS.ttf", "/System/Library/Fonts/Helvetica.ttc"]);
    proof {
        assert(views(v@) =~= seq![
            "/System/Library/Fonts/SFNS.ttf"@,
            "/System/Library/Fonts/Helvetica.ttc"@,
        ]);
    }
    v
}

/// The PingFang that ships inside FontServices, tried after any copy found among the
/// system's font assets.
pub const PINGFANG_UI: &'static str =
    "/System/Library/PrivateFrameworks/FontServices.framework/Versions/A/Resources/Reserved/PingFangUI.ttc";

/// The prefix of the asset folders that hold downloadable system fonts.
pub const FONT_ASSET_PREFIX: &'static str = "com_apple_MobileAsset_Font";

/// Whether an asset folder's name marks it as a font asset folder worth searching
/// for `AssetData/PingFang.ttc`.
pub fn is_font_asset_bucket(name: &str) -> (r: bool)
    ensures
        r == begins_with(name.spec_bytes(), FONT_ASSET_PREFIX.spec_bytes()),
{
    starts_with(name, FONT_ASSET_PREFIX)
}

/// The PingFang candidates: the copies the shell found among the font assets (in the
/// order it found them), then the FontServices copy.
pub fn pingfang_paths(found: Vec<String>) -> (v: Vec<String>)
    ensures
        views(v@) == views(found@).push(PINGFANG_UI@),
{
    let mut v = found;
    let ghost before = v@;
    v.push(String::from_str(PINGFANG_UI));
    proof {
        assert(views(v@) =~= views(before).push(PINGFANG_UI@));
    }
    v
}

/// The Han fonts the locale wants, then the Japanese font as the fallback for Japanese
/// text: outside Japanese locales, PingFang (`pingfang`, from [`pingfang_paths`]) and
/// Hiragino Sans GB come first.
pub fn script_fonts(locale: &str, pingfang: Vec<String>) -> (v: Vec<String>)
    ensures
        ({
            views(v@) == if begins_with(locale.spec_bytes(), "ja".spec_bytes()) {
                seq!["/System/Library/Fonts/ヒラギノ角ゴシック W4.ttc"@]
            } else {
                views(pingfang@).push("/System/Library/Fonts/Hiragino Sans GB.ttc"@).push(
                    "/System/Library/Fonts/ヒラギノ角ゴシック W4.ttc"@,
                )
            }
        }),
{
    let mut fonts: Vec<String> = Vec::new();
    if !starts_with(locale, "ja") {
        fonts = pingfang;
        fonts.push(String::from_str("/System/Library/Fonts/Hiragino Sans GB.ttc"));
    }
    let ghost middle = fonts@;
    fonts.push(String::from_str("/System/Library/Fonts/ヒラギノ角ゴシック W4.ttc"));
    proof {
        assert(views(fonts@) =~= views(middle).push("/System/Library/Fonts/ヒラギノ角ゴシック W4.ttc"@));
        assert(views(Seq::<String>::empty()) =~= Seq::<Seq<char>>::empty());
    }
    fonts
}

/// The emoji font: Apple Color Emoji.
pub fn emoji_fonts() -> (v: Vec<String>)
    ensures
        views(v@) == seq!["/System/Library/Fonts/Apple Color Emoji.ttc"@],
{
    let v = owned(&["/System/Library/Fonts/Apple Color Emoji.ttc"]);
    proof {
        assert(views(v@) =~= seq!["/System/Library/Fonts/Apple Color Emoji.ttc"@]);
    }
    v
}

} // verus!
