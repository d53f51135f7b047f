use qingjian::indicator::ModeIndicator;

#[test]
fn title_changes_only_with_the_mode() {
    let mut item = ModeIndicator::new();
    assert_eq!(item.update(false).as_deref(), Some("中"));
    assert_eq!(item.update(false), None);
    assert_eq!(item.update(true).as_deref(), Some("英"));
    assert_eq!(item.update(true), None);
}

#[test]
fn cloud_adds_a_cloud_and_forces_a_redraw() {
    let mut item = ModeIndicator::new();
    item.update(true);
    item.set_cloud(true);
    assert_eq!(item.update(true).as_deref(), Some("英 \u{2601}\u{fe0e}"));
    item.set_cloud(false);
    assert_eq!(item.update(true).as_deref(), Some("英"));
}

#[test]
fn activation_redraws_and_starts_the_timer_once() {
    let mut item = ModeIndicator::new();
    assert_eq!(item.activate(false), ("中".to_owned(), true));
    assert_eq!(item.activate(false), ("中".to_owned(), false));
    assert!(item.deactivate());
    assert!(!item.deactivate());
    // the title keeps the last mode after deactivation
    assert_eq!(item.update(false), None);
    assert_eq!(item.activate(true), ("英".to_owned(), true));
}
