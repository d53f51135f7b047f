use qingjian::shift::ShiftTap;

#[test]
fn tap_press_then_release_toggles_once() {
    let mut tap = ShiftTap::default();
    tap.shift_pressed();
    assert!(tap.shift_released());
    // one release counts once
    assert!(!tap.shift_released());
}

#[test]
fn key_between_press_and_release_cancels_tap() {
    let mut tap = ShiftTap::default();
    tap.shift_pressed();
    tap.key_down();
    assert!(!tap.shift_released());
}

#[test]
fn release_without_press_does_nothing() {
    // arriving with Shift already held: no press was seen, so the release does nothing
    let mut tap = ShiftTap::default();
    assert!(!tap.shift_released());
}

#[test]
fn a_second_press_after_a_tap_taps_again() {
    let mut tap = ShiftTap::default();
    tap.shift_pressed();
    assert!(tap.shift_released());
    tap.shift_pressed();
    assert!(tap.shift_released());
}

#[test]
fn key_before_press_does_not_spoil_the_tap() {
    let mut tap = ShiftTap::default();
    tap.key_down();
    tap.shift_pressed();
    assert!(tap.shift_released());
}
