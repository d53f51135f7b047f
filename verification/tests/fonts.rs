use qingjian::fonts::picker::{PickerState, DEFAULT_FONT_LABEL};
use qingjian::fonts::order::{settings_families, sort_by_keys};
use qingjian::fonts::{chosen_family, families, linux, macos, ui_family, windows, UiFont};

fn strings(items: &[&str]) -> Vec<String> {
    items.iter().map(|s| s.to_string()).collect()
}

#[test]
fn linux_lists_noto_locations() {
    assert_eq!(
        linux::ui_fonts(),
        strings(&[
            "/usr/share/fonts/truetype/noto/NotoSans-Regular.ttf",
            "/usr/share/fonts/noto/NotoSans-Regular.ttf",
            "/usr/share/fonts/truetype/dejavu/DejaVuSans.ttf",
        ])
    );
    assert_eq!(linux::script_fonts("ja"), linux::script_fonts("zh-CN"));
    assert_eq!(linux::emoji_fonts().len(), 2);
}

#[test]
fn macos_script_fonts_follow_the_locale() {
    let found = strings(&["/assets/a/AssetData/PingFang.ttc"]);
    let pingfang = macos::pingfang_paths(found);
    assert_eq!(pingfang, strings(&["/assets/a/AssetData/PingFang.ttc", macos::PINGFANG_UI]));
    assert_eq!(
        macos::script_fonts("zh-CN", pingfang.clone()),
        strings(&[
            "/assets/a/AssetData/PingFang.ttc",
            macos::PINGFANG_UI,
            "/System/Library/Fonts/Hiragino Sans GB.ttc",
            "/System/Library/Fonts/ヒラギノ角ゴシック W4.ttc",
        ])
    );
    assert_eq!(
        macos::script_fonts("ja-JP", pingfang),
        strings(&["/System/Library/Fonts/ヒラギノ角ゴシック W4.ttc"])
    );
    assert_eq!(
        macos::ui_fonts(),
        strings(&["/System/Library/Fonts/SFNS.ttf", "/System/Library/Fonts/Helvetica.ttc"])
    );
    assert_eq!(macos::emoji_fonts(), strings(&["/System/Library/Fonts/Apple Color Emoji.ttc"]));
    assert!(macos::is_font_asset_bucket("com_apple_MobileAsset_Font7"));
    assert!(!macos::is_font_asset_bucket("com_apple_MobileAsset_Dictionary"));
}

#[test]
fn windows_paths_join_with_backslashes() {
    assert_eq!(windows::fonts_dir(None), "C:\\Windows\\Fonts");
    assert_eq!(windows::fonts_dir(Some("D:\\Win\\")), "D:\\Win\\Fonts");
    assert_eq!(windows::join("", "a.ttf"), "a.ttf");
    let dir = "C:\\Windows\\Fonts";
    assert_eq!(
        windows::script_fonts("zh-TW", dir),
        strings(&["C:\\Windows\\Fonts\\msjh.ttc", "C:\\Windows\\Fonts\\YuGothR.ttc", "C:\\Windows\\Fonts\\yugothm.ttc"])
    );
    assert_eq!(windows::script_fonts("zh-HK", dir)[0], "C:\\Windows\\Fonts\\msjh.ttc");
    assert_eq!(windows::script_fonts("zh-CN", dir)[0], "C:\\Windows\\Fonts\\msyh.ttc");
    assert_eq!(windows::script_fonts("ja", dir).len(), 2);
    assert_eq!(windows::ui_fonts(dir), strings(&["C:\\Windows\\Fonts\\segoeui.ttf", "C:\\Windows\\Fonts\\arial.ttf"]));
    assert_eq!(windows::emoji_fonts(dir), strings(&["C:\\Windows\\Fonts\\seguiemj.ttf"]));
}

#[test]
fn families_are_listed_once_in_loading_order() {
    let names = strings(&["PingFang SC", "Helvetica", "PingFang SC", "PingFang TC", "Helvetica"]);
    assert_eq!(families(&names), strings(&["PingFang SC", "Helvetica", "PingFang TC"]));
    assert!(families(&[]).is_empty());
}

#[test]
fn user_font_needs_a_loaded_file_and_its_name() {
    let font = UiFont { family: "LXGW WenKai".to_owned(), files: strings(&["/f/LXGWWenKai.ttf"]) };
    let loaded = strings(&["Helvetica", "lxgw wenkai"]);
    assert_eq!(chosen_family(&font, 1, &loaded), Some("LXGW WenKai".to_owned()));
    assert_eq!(chosen_family(&font, 0, &loaded), None);
    assert_eq!(chosen_family(&font, 1, &strings(&["Helvetica"])), None);
    assert_eq!(ui_family(None, Some(".SF NS".to_owned())), ".SF NS");
    assert_eq!(ui_family(Some("LXGW WenKai".to_owned()), Some(".SF NS".to_owned())), "LXGW WenKai");
    assert_eq!(ui_family(None, None), "sans-serif");
}

#[test]
fn picker_filters_case_insensitively_and_keeps_the_default_first() {
    let mut picker = PickerState::new(strings(&["Helvetica", "PingFang SC", "Songti SC"]));
    picker.apply_filter("  SC ");
    assert_eq!(picker.selected_name(0).as_deref(), Some(DEFAULT_FONT_LABEL));
    assert_eq!(picker.selected_name(1).as_deref(), Some("PingFang SC"));
    assert_eq!(picker.selected_name(2).as_deref(), Some("Songti SC"));
    assert_eq!(picker.selected_name(3), None);
    assert_eq!(picker.selected_name(-1), None);
    // the families are lowered before matching
    picker.apply_filter("pingfang");
    assert_eq!(picker.selected_name(1).as_deref(), Some("PingFang SC"));
    assert_eq!(picker.selected_name(2), None);
    picker.apply_filter("zzz");
    assert_eq!(picker.selected_name(0).as_deref(), Some(DEFAULT_FONT_LABEL));
    assert_eq!(picker.selected_name(1), None);
}

#[test]
fn picker_selects_the_current_font_or_the_default() {
    let mut picker = PickerState::new(strings(&["Helvetica", "PingFang SC"]));
    let (label, row) = picker.set_current("  pingfang sc ");
    assert_eq!((label.as_str(), row), ("pingfang sc", 2));
    let (label, row) = picker.set_current("   ");
    assert_eq!((label.as_str(), row), (DEFAULT_FONT_LABEL, 0));
    let (_, row) = picker.set_current("Missing Font");
    assert_eq!(row, 0);
    picker.set_current("Helvetica");
    picker.apply_filter("ping");
    assert_eq!(picker.open(), 1);
    assert_eq!(picker.select(Some("HELVETICA")), 1);
}

#[test]
fn picker_keeps_the_selection_across_filters() {
    let mut picker = PickerState::new(strings(&["Helvetica", "PingFang SC", "Songti SC"]));
    // row 2 is PingFang SC; after filtering it is row 1
    assert_eq!(picker.filter_changed("sc", 2), 1);
    // the selected family filtered away: back to the default entry
    assert_eq!(picker.filter_changed("song", 1), 0);
}

#[test]
fn traced_families_merge_neighbours_only() {
    let names = strings(&["PingFang SC", "PingFang SC", "Apple Color Emoji", "PingFang SC"]);
    assert_eq!(
        qingjian::fonts::traced_families(&names),
        strings(&["PingFang SC", "Apple Color Emoji", "PingFang SC"])
    );
    assert!(qingjian::fonts::traced_families(&[]).is_empty());
}

#[test]
fn settings_families_are_unique_and_sorted_case_blind() {
    let names = strings(&["Segoe UI", "arial", "Arial", "Segoe UI", "Calibri", "ARIAL"]);
    // "arial", "Arial" and "ARIAL" lower alike and keep their order
    assert_eq!(settings_families(&names), strings(&["arial", "Arial", "ARIAL", "Calibri", "Segoe UI"]));
    assert!(settings_families(&[]).is_empty());
}

#[test]
fn sort_by_keys_is_stable_and_bytewise() {
    let names = strings(&["b1", "a", "b2", "c", "B"]);
    let keys = strings(&["b", "a", "b", "c", "B"]);
    // "B" (0x42) sorts before "a" (0x61)
    assert_eq!(sort_by_keys(names, keys), strings(&["B", "a", "b1", "b2", "c"]));
}
