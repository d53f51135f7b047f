use qingjian::color::Color;
use qingjian::config::{CandidateRenderer, CorrectionConfig, RenderSettings};
use qingjian::frame::{Preedit, PreeditSegment, PreeditStyle, Tone};
use qingjian::theme::{Layout, Palette};

#[test]
fn plain_preedit_is_one_typed_segment() {
    let preedit = Preedit::plain("nihao", 2);
    assert_eq!(preedit.segments.len(), 1);
    assert_eq!(preedit.segments[0].style, PreeditStyle::Typed);
    assert_eq!(preedit.text(), "nihao");
    assert_eq!(preedit.before_cursor(), "ni");
}

#[test]
fn preedit_text_joins_segments_and_cursor_counts_characters() {
    let preedit = Preedit {
        segments: vec![
            PreeditSegment { text: "你好".to_owned(), style: PreeditStyle::Typed },
            PreeditSegment { text: "shi".to_owned(), style: PreeditStyle::Rest },
            PreeditSegment { text: "jie".to_owned(), style: PreeditStyle::Struck },
        ],
        cursor: 3,
    };
    assert_eq!(preedit.text(), "你好shijie");
    assert_eq!(preedit.before_cursor(), "你好s");
    let past_end = Preedit { cursor: 99, ..preedit.clone() };
    assert_eq!(past_end.before_cursor(), "你好shijie");
    assert_eq!(Preedit::default().text(), "");
    assert_eq!(Preedit::default().before_cursor(), "");
}

#[test]
fn palettes_match_the_system_colours() {
    let light = Palette::light();
    assert_eq!(light.text, Color::gray(0, 216));
    assert_eq!(light.gloss, Color::gray(0, 127));
    assert_eq!(light.fresh, Color::rgb(255, 141, 40));
    assert_eq!(light.background, Color::rgb(255, 255, 255));
    assert_eq!(light.highlight, Color::rgba(0, 122, 255, 41));
    let dark = Palette::dark();
    assert_eq!(dark.text, Color::gray(255, 216));
    assert_eq!(dark.gloss, Color::gray(255, 140));
    assert_eq!(dark.cloud, Color::rgb(0, 210, 224));
    assert_eq!(dark.background, Color::rgb(30, 30, 30));
    assert_eq!(dark.highlight, light.highlight);
}

#[test]
fn renderer_keys_and_labels() {
    assert_eq!(CandidateRenderer::default(), CandidateRenderer::Qingjian);
    assert_eq!(CandidateRenderer::Qingjian.key(), "qingjian");
    assert_eq!(CandidateRenderer::System.key(), "system");
    assert_eq!(CandidateRenderer::Qingjian.label(), "青简渲染器");
    assert_eq!(CandidateRenderer::System.label(), "系统绘制");
    assert_eq!(CandidateRenderer::ALL, [CandidateRenderer::Qingjian, CandidateRenderer::System]);
}

#[test]
fn defaults() {
    assert!(CorrectionConfig::default().enabled);
    assert_eq!(Layout::default(), Layout::Vertical);
    let settings = RenderSettings { renderer: CandidateRenderer::System, font: String::new() };
    assert_eq!(settings.clone(), settings);
    assert_ne!(Tone::Gloss, Tone::Faint);
}
