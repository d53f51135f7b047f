use qingjian::correction::{is_neural_output, neural_candidates, Engine, Nomination};
use qingjian::host::{requery_step, CorrectionTimer, Host, LoaderReport, Requery};

fn job(scope: &str, outputs: &[&str]) -> (String, Vec<String>) {
    (scope.to_owned(), outputs.iter().map(|s| s.to_string()).collect())
}

#[test]
fn without_a_worker_nothing_is_pending() {
    let mut engine = Engine::new();
    assert!(!engine.correction_pending());
    assert_eq!(engine.request_correction(), None);
    assert!(matches!(engine.neural_nomination("zhoongguo"), Nomination::AskNow));
    assert!(!engine.poll_correction(vec![job("a", &["b"])]));
}

#[test]
fn a_noted_scope_is_sent_once() {
    let mut engine = Engine::new();
    engine.set_correction_worker(Some(true));
    assert!(matches!(engine.neural_nomination("zhoongguo"), Nomination::Deferred));
    assert!(engine.correction_pending());
    assert_eq!(engine.request_correction(), Some("zhoongguo".to_owned()));
    assert!(!engine.correction_pending());
    assert_eq!(engine.request_correction(), None);
}

#[test]
fn finished_nominations_are_ready_for_their_scope() {
    let mut engine = Engine::new();
    engine.set_correction_worker(Some(true));
    assert!(engine.poll_correction(vec![job("zhoongguo", &["zhongguo"]), job("nihoo", &[])]));
    assert_eq!(engine.ready_correction("zhoongguo"), Some(vec!["zhongguo".to_owned()]));
    assert_eq!(engine.ready_correction("nihoo"), Some(vec![]));
    assert_eq!(engine.ready_correction("other"), None);
    match engine.neural_nomination("zhoongguo") {
        Nomination::Ready(outputs) => assert_eq!(outputs, vec!["zhongguo".to_owned()]),
        _ => panic!("the finished nomination must be offered"),
    }
    // a newer answer for the same scope replaces the older one
    assert!(engine.poll_correction(vec![job("zhoongguo", &["zhonguo"])]));
    assert_eq!(engine.ready_correction("zhoongguo"), Some(vec!["zhonguo".to_owned()]));
    assert!(!engine.poll_correction(vec![]));
}

#[test]
fn only_the_newest_eight_are_kept() {
    let mut engine = Engine::new();
    engine.set_correction_worker(Some(true));
    let jobs: Vec<_> = (0..10).map(|i| job(&format!("scope{i}"), &["x"])).collect();
    assert!(engine.poll_correction(jobs));
    assert_eq!(engine.ready_correction("scope0"), None);
    assert_eq!(engine.ready_correction("scope1"), None);
    assert!(engine.ready_correction("scope2").is_some());
    assert!(engine.ready_correction("scope9").is_some());
}

#[test]
fn new_nominations_drop_the_cached_conclusion() {
    let mut engine = Engine::new();
    engine.set_correction_worker(Some(true));
    engine.cache_correction("nihoo", Some("nihao".to_owned()));
    assert_eq!(engine.cached_correction("nihoo"), Some(Some("nihao".to_owned())));
    assert_eq!(engine.cached_correction("other"), None);
    assert!(engine.poll_correction(vec![job("nihoo", &["nihao"])]));
    assert_eq!(engine.cached_correction("nihoo"), None);
}

#[test]
fn neural_output_must_look_like_pinyin() {
    assert!(is_neural_output("nihao"));
    assert!(is_neural_output("ab"));
    assert!(!is_neural_output("a"));
    assert!(!is_neural_output("Nihao"));
    assert!(!is_neural_output("ni hao"));
    assert!(!is_neural_output(&"a".repeat(33)));
    assert!(is_neural_output(&"a".repeat(32)));
}

#[test]
fn neural_candidates_skip_unchanged_and_unfinished() {
    let fixed = vec![
        "zhoongguo".to_owned(),
        "zhoongguo".to_owned(),
        "zhoongguoX".to_owned(),
        "zhongguo".to_owned(),
    ];
    // the scope itself, and only the first three are looked at
    assert_eq!(neural_candidates("zhoongguo", fixed), Vec::<String>::new());
    let fixed = vec!["zhongguo".to_owned(), "zhoongguo".to_owned(), "zhoongggu".to_owned()];
    assert_eq!(neural_candidates("zhoongguo", fixed), vec!["zhongguo".to_owned(), "zhoongggu".to_owned()]);
    // just the last letter dropped: the user is probably still typing
    assert_eq!(neural_candidates("nihaoo", vec!["nihao".to_owned()]), Vec::<String>::new());
}

#[test]
fn host_debounces_then_polls_then_redraws() {
    let mut host = Host::new(true);
    host.attach_loaded_corrector(LoaderReport::Pending);
    host.attach_loaded_corrector(LoaderReport::Loaded { alive: true });
    // a query leaves a scope for the model
    assert!(matches!(host_nominate(&mut host, "zhoongguo"), Nomination::Deferred));
    host.schedule_correction();
    assert_eq!(host.timer_state(), CorrectionTimer::Debouncing);
    assert_eq!(host.start_correction(true), Some("zhoongguo".to_owned()));
    assert_eq!(host.timer_state(), CorrectionTimer::Polling);
    // nothing back yet, not expired: keep polling
    assert!(!host.poll_correction(true, false, false, 0, false));
    assert_eq!(host.timer_state(), CorrectionTimer::Polling);
    host.deliver(vec![job("zhoongguo", &["zhongguo"])]);
    assert!(host.poll_correction(true, false, false, 0, false));
    assert_eq!(host.timer_state(), CorrectionTimer::Idle);
}

fn host_nominate(host: &mut Host, scope: &str) -> Nomination {
    host.engine.neural_nomination(scope)
}

#[test]
fn host_stops_when_composition_ends_or_user_navigated() {
    let mut host = Host::new(true);
    host.attach_loaded_corrector(LoaderReport::Loaded { alive: true });
    host_nominate(&mut host, "nihoo");
    assert_eq!(host.start_correction(false), None);
    assert_eq!(host.timer_state(), CorrectionTimer::Idle);
    assert_eq!(host.start_correction(true), Some("nihoo".to_owned()));
    host.deliver(vec![job("nihoo", &["nihao"])]);
    // on page two the nomination is taken but nothing is redrawn
    assert!(!host.poll_correction(true, false, false, 1, false));
    assert_eq!(host.timer_state(), CorrectionTimer::Idle);
    // a translation showing: stop without taking anything; the job waits
    host.deliver(vec![job("x", &["y"])]);
    assert!(!host.poll_correction(true, true, false, 0, false));
    assert!(host.poll_correction(true, false, false, 0, false));
    // waited too long with nothing back: stop
    host_nominate(&mut host, "wohenhoo");
    assert_eq!(host.start_correction(true), Some("wohenhoo".to_owned()));
    assert!(!host.poll_correction(true, false, false, 0, false));
    assert_eq!(host.timer_state(), CorrectionTimer::Polling);
    assert!(!host.poll_correction(true, false, true, 0, false));
    assert_eq!(host.timer_state(), CorrectionTimer::Idle);
}

#[test]
fn host_loader_failures_leave_no_corrector() {
    let mut host = Host::new(true);
    host.attach_loaded_corrector(LoaderReport::Failed);
    host.attach_loaded_corrector(LoaderReport::Loaded { alive: true });
    assert!(!host_nominate_is_deferred(&mut host));
    let mut host = Host::new(false);
    host.attach_loaded_corrector(LoaderReport::Loaded { alive: true });
    assert!(!host_nominate_is_deferred(&mut host));
}

fn host_nominate_is_deferred(host: &mut Host) -> bool {
    matches!(host_nominate(host, "abc"), Nomination::Deferred)
}

#[test]
fn toggling_english_flips_the_mode() {
    let mut host = Host::new(false);
    assert!(!host.is_english());
    let mut composition = "nihao".to_owned();
    let (raw, title) = host.toggle_english(&mut composition);
    assert_eq!(raw, "nihao");
    assert_eq!(composition, "");
    assert_eq!(title.as_deref(), Some("英"));
    assert!(host.is_english());
    let (raw, title) = host.toggle_english(&mut composition);
    assert_eq!((raw.as_str(), title.as_deref()), ("", Some("中")));
    assert!(!host.is_english());
    assert_eq!(host.set_english(false), None);
    assert_eq!(host.set_english(true).as_deref(), Some("英"));
    assert!(host.is_english());
}

#[test]
fn requery_keeps_the_cloud_slots() {
    assert!(matches!(requery_step(false, vec![1, 2]), Requery::Keep));
    match requery_step(true, vec!["云".to_owned()]) {
        Requery::Reset { cloud } => assert_eq!(cloud, Some(vec!["云".to_owned()])),
        Requery::Keep => panic!("a successful query resets the session"),
    }
    assert!(matches!(requery_step::<String>(true, vec![]), Requery::Reset { cloud: None }));
}

#[test]
fn unloading_drops_the_worker_and_stops_the_timer() {
    let mut host = Host::new(true);
    host.attach_loaded_corrector(LoaderReport::Loaded { alive: true });
    host_nominate(&mut host, "nihoo");
    host.schedule_correction();
    assert_eq!(host.timer_state(), CorrectionTimer::Debouncing);
    host.unload_corrector();
    assert_eq!(host.timer_state(), CorrectionTimer::Idle);
    // no worker any more: nothing to send, and a new scope is left to a synchronous corrector
    assert_eq!(host.start_correction(true), None);
    assert!(matches!(host_nominate(&mut host, "wohenhoo"), Nomination::AskNow));
}
