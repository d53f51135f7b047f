//! Linux: where distributions usually install Noto.

use vstd::prelude::*;

use super::{owned, views};

verus! {

pub fn ui_fonts() -> (v: Vec<String>)
    ensures
        views(v@) == seq![
            "/usr/share/fonts/truetype/noto/NotoSans-Regular.ttf"@,
            "/usr/share/fonts/noto/NotoSans-Regular.ttf"@,
            "/usr/share/fonts/truetype/dejavu/DejaVuSans.ttf"@,
        ],
{
    let v = owned(
        &[
            "/usr/share/fonts/truetype/noto/NotoSans-Regular.ttf",
            "/usr/share/fonts/noto/NotoSans-Regular.ttf",
            "/usr/share/fonts/truetype/dejavu/DejaVuSans.ttf",
        ],
    );
    proof {
        assert(views(v@) =~= seq![
            "/usr/share/fonts/truetype/noto/NotoSans-Regular.ttf"@,
            "/usr/share/fonts/noto/NotoSans-Regular.ttf"@,
            "/usr/share/fonts/truetype/dejavu/DejaVuSans.ttf"@,
        ]);
    }
    v
}

/// The CJK fonts; the same files whatever the locale.
pub fn script_fonts(_locale: &str) -> (v: Vec<String>)
    ensures
        views(v@) == seq![
            "/usr/share/fonts/opentype/noto/NotoSansCJK-Regular.ttc"@,
            "/usr/share/fonts/noto-cjk/NotoSansCJK-Regular.ttc"@,
        ],
{
    let v = owned(
        &[
            "/usr/share/fonts/opentype/noto/NotoSansCJK-Regular.ttc",
            "/usr/share/fonts/noto-cjk/NotoSansCJK-Regular.ttc",
        ],
    );
    proof {
        assert(views(v@) =~= seq![
            "/usr/share/fonts/opentype/noto/NotoSansCJK-Regular.ttc"@,
            "/usr/share/fonts/noto-cjk/NotoSansCJK-Regular.ttc"@,
        ]);
    }
    v
}

pub fn emoji_fonts() -> (v: Vec<String>)
    ensures
        views(v@) == seq![
            "/usr/share/fonts/truetype/noto/NotoColorEmoji.ttf"@,
            "/usr/share/fonts/noto/NotoColorEmoji.ttf"@,
        ],
{
    let v = owned(
        &["/usr/share/fonts/truetype/noto/NotoColorEmoji.ttf", "/usr/share/fonts/noto/NotoColorEmoji.ttf"],
    );
    proof {
        assert(views(v@) =~= seq![
            "/usr/share/fonts/truetype/noto/NotoColorEmoji.ttf"@,
            "/usr/share/fonts/noto/NotoColorEmoji.ttf"@,
        ]);
    }
    v
}

} // verus!
