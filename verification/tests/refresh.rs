use qingjian::refresh::{accept_sentence, commit_candidate, commit_clicked, refreshed_candidates};
use qingjian::correction::correction_allowed;
use qingjian::fonts::available_families;
use qingjian::fonts::picker::{PickerState, DEFAULT_FONT_LABEL};
use qingjian::config::{CandidateRenderer, RenderSettings};
use qingjian::error::RenderError;
use qingjian::fonts::library_ui_family;
use qingjian::refresh::{
    commit_index, commit_raw, context_wanted, prediction_step, refresh_plan, turn_page, CommitStep,
    PredictionAction,
};
use qingjian::shadow::blur_fits_line;
use qingjian::sink::{CandidateSink, NoopSink};

#[test]
fn context_is_read_once_per_composition() {
    assert!(context_wanted(true, 1, false));
    assert!(!context_wanted(true, 2, false));
    assert!(!context_wanted(false, 1, false));
    assert!(!context_wanted(true, 1, true));
}

#[test]
fn refresh_shows_the_query_or_the_raw_letters() {
    let query = Some(("ni hao".to_owned(), 6));
    assert_eq!(refresh_plan("nihao", 5, query.clone(), true), ("ni hao".to_owned(), 6, true));
    assert_eq!(refresh_plan("nihao", 5, None, true), ("nihao".to_owned(), 5, true));
    assert_eq!(refresh_plan("nihao", 5, query, false), (String::new(), 0, true));
    assert_eq!(refresh_plan("", 0, None, true), (String::new(), 0, false));
    assert_eq!(refresh_plan("x", 1, Some((String::new(), 0)), true), (String::new(), 0, false));
}

#[test]
fn prediction_never_under_secure_input() {
    assert_eq!(prediction_step(false, true), PredictionAction::Skip);
    assert_eq!(prediction_step(true, true), PredictionAction::Cancel);
    assert_eq!(prediction_step(true, false), PredictionAction::Request);
}

#[test]
fn commits_candidate_slot_or_raw() {
    assert_eq!(commit_index(2, true, 5), CommitStep::Candidate);
    assert_eq!(commit_index(4, false, 5), CommitStep::EmptySlot);
    assert_eq!(commit_index(5, false, 5), CommitStep::Raw);
    assert_eq!(commit_raw(Some("nihao".to_owned())), Some("nihao".to_owned()));
    assert_eq!(commit_raw(Some(String::new())), None);
    assert_eq!(commit_raw(None), None);
    assert_eq!(turn_page(true), (true, true));
    assert_eq!(turn_page(false), (true, false));
}

#[test]
fn no_system_ui_font_is_an_error_even_with_the_users_font() {
    let tried = vec!["/a.ttf".to_owned(), "/b.ttf".to_owned()];
    match library_ui_family(Some("LXGW WenKai".to_owned()), None, tried.clone()) {
        Err(RenderError::NoUiFont { tried: t }) => assert_eq!(t, tried),
        other => panic!("expected NoUiFont, got {other:?}"),
    }
    assert_eq!(
        library_ui_family(Some("LXGW WenKai".to_owned()), Some(Some(".SF NS".to_owned())), tried.clone())
            .unwrap(),
        "LXGW WenKai"
    );
    assert_eq!(library_ui_family(None, Some(Some(".SF NS".to_owned())), tried.clone()).unwrap(), ".SF NS");
    assert_eq!(library_ui_family(None, Some(None), tried).unwrap(), "sans-serif");
}

#[test]
fn size_checks_match_the_limits() {
    assert!(blur_fits_line(100, 12));
    assert!(!blur_fits_line(100, usize::MAX / 2));
}

#[test]
fn noop_sink_accepts_everything() {
    let sink = NoopSink;
    CandidateSink::<(), (i32, i32)>::show(&sink, (), (0, 0));
    CandidateSink::<(), (i32, i32)>::hide_window(&sink);
    CandidateSink::<(), (i32, i32)>::configure(
        &sink,
        RenderSettings { renderer: CandidateRenderer::Qingjian, font: String::new() },
    );
}

#[test]
fn refresh_resets_to_the_query_candidates() {
    assert_eq!(refreshed_candidates(Some(vec![1, 2, 3])), vec![1, 2, 3]);
    assert_eq!(refreshed_candidates::<u8>(None), Vec::<u8>::new());
    assert_eq!(commit_candidate(Some("你好".to_owned())), (true, Some("你好".to_owned())));
    assert_eq!(commit_candidate(None), (false, None));
    assert_eq!(accept_sentence(Some("今天天气不错".to_owned())), (true, Some("今天天气不错".to_owned())));
    assert_eq!(accept_sentence(None), (false, None));
    assert_eq!(commit_clicked(Some(3)), Some(3));
    assert_eq!(commit_clicked(None), None);
}

#[test]
fn correction_needs_an_eligible_unseen_non_english_scope() {
    assert!(correction_allowed(true, 0, false));
    assert!(!correction_allowed(false, 0, false));
    assert!(!correction_allowed(true, 2, false));
    assert!(!correction_allowed(true, 0, true));
}

#[test]
fn private_families_are_not_offered() {
    let names: Vec<String> = [".SF NS", "Helvetica", "", ".AppleSystemUIFont", "PingFang SC"]
        .iter()
        .map(|s| s.to_string())
        .collect();
    assert_eq!(available_families(&names), vec!["Helvetica".to_owned(), String::new(), "PingFang SC".to_owned()]);
}

#[test]
fn filter_rows_judges_by_the_lowered_names() {
    let families = vec!["PingFang SC".to_owned(), "Helvetica".to_owned()];
    let lowered = vec!["pingfang sc".to_owned(), "helvetica".to_owned()];
    assert_eq!(
        PickerState::filter_rows(&families, &lowered, "ping"),
        vec![DEFAULT_FONT_LABEL.to_owned(), "PingFang SC".to_owned()]
    );
    assert_eq!(PickerState::filter_rows(&families, &lowered, "").len(), 3);
    assert_eq!(PickerState::filter_rows(&families, &lowered, "PING"), vec![DEFAULT_FONT_LABEL.to_owned()]);
}
