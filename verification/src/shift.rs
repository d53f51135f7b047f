//! Telling a lone Shift tap apart: fed with Shift presses and releases and with every
//! other key. A press followed by a release with no other key in between is one tap.

use vstd::prelude::*;

verus! {

/// The tap detector's state, shared by every input session.
pub struct ShiftTap {
    /// Shift is down and no other key has come in yet.
    alone: bool,
}

impl ShiftTap {
    /// The detector before any key has been seen.
    pub closed spec fn idle() -> ShiftTap {
        ShiftTap { alone: false }
    }

    /// The state after a Shift press.
    pub closed spec fn after_press(self) -> ShiftTap {
        ShiftTap { alone: true }
    }

    /// The state after any other key.
    pub closed spec fn after_key(self) -> ShiftTap {
        ShiftTap { alone: false }
    }

    /// The state after a Shift release.
    pub closed spec fn after_release(self) -> ShiftTap {
        ShiftTap { alone: false }
    }

    /// Whether a Shift release in this state is a tap.
    pub closed spec fn release_taps(self) -> bool {
        self.alone
    }

    /// Shift went down.
    pub fn shift_pressed(&mut self)
        ensures
            *final(self) == old(self).after_press(),
    {
        self.alone = true;
    }

    /// Any ordinary key went down: Shift is being used as a modifier, so this is no tap.
    pub fn key_down(&mut self)
        ensures
            *final(self) == old(self).after_key(),
    {
        self.alone = false;
    }

    /// Shift went up; `true` when it was a lone tap. One release counts once.
    pub fn shift_released(&mut self) -> (tapped: bool)
        ensures
            tapped == old(self).release_taps(),
            *final(self) == old(self).after_release(),
    {
        let tapped = self.alone;
        self.alone = false;
        tapped
    }
}

impl Default for ShiftTap {
    fn default() -> (t: Self)
        ensures
            t == ShiftTap::idle(),
    {
        ShiftTap { alone: false }
    }
}

/// A press followed by a release is one tap, and a second release right after it is not.
pub proof fn lemma_tap_counts_once(t: ShiftTap)
    ensures
        t.after_press().release_taps(),
        !t.after_press().after_release().release_taps(),
{
}

/// A key between the press and the release cancels the tap.
pub proof fn lemma_key_cancels_tap(t: ShiftTap)
    ensures
        !t.after_press().after_key().release_taps(),
{
}

/// A release that was not preceded by a press since the last key or release (such as
/// Shift already held when the input method was switched in) is no tap.
pub proof fn lemma_release_without_press(t: ShiftTap)
    ensures
        !ShiftTap::idle().release_taps(),
        !t.after_key().release_taps(),
        !t.after_release().release_taps(),
{
}

} // verus!
