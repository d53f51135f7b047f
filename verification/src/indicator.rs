//! The menu-bar mode item: its title shows Chinese or English mode, with a cloud when
//! cloud prediction is on. The shell owns the status item and its fallback poll timer;
//! this decides when the title changes and what it says.

use vstd::prelude::*;
use vstd::string::StringExecFns;

verus! {

/// The title for a mode: `英` or `中`, followed by a space and a cloud when cloud
/// prediction is on.
pub open spec fn mode_title(english: bool, cloud: bool) -> Seq<char> {
    let mode = if english {
        "英"@
    } else {
        "中"@
    };
    if cloud {
        mode + " \u{2601}\u{fe0e}"@
    } else {
        mode
    }
}

/// The title names the mode, `中` for Chinese and `英` for English, and with cloud
/// prediction on it is that same name followed by a space and the cloud, whatever
/// the mode.
pub proof fn lemma_mode_title(english: bool)
    ensures
        mode_title(false, false) == "中"@,
        mode_title(true, false) == "英"@,
        mode_title(english, true) == mode_title(english, false) + " \u{2601}\u{fe0e}"@,
{
}

/// What the mode item shows and whether its poll timer runs.
pub struct ModeIndicator {
    /// The mode the title last showed; `None` forces the next update to redraw.
    english: Option<bool>,
    /// Cloud prediction is on: the title carries a cloud.
    cloud: bool,
    /// The fallback poll timer is running.
    polling: bool,
}

impl ModeIndicator {
    pub closed spec fn shown(self) -> Option<bool> {
        self.english
    }

    pub closed spec fn cloud(self) -> bool {
        self.cloud
    }

    pub closed spec fn polling(self) -> bool {
        self.polling
    }

    /// A fresh item: nothing shown yet, no cloud, no timer.
    pub fn new() -> (m: Self)
        ensures
            m.shown() is None,
            !m.cloud(),
            !m.polling(),
    {
        ModeIndicator { english: None, cloud: false, polling: false }
    }

    /// The mode may have changed: the new title when it differs from what is shown,
    /// else `None` (nothing to redraw).
    pub fn update(&mut self, english: bool) -> (title: Option<String>)
        ensures
            final(self).shown() == Some(english),
            final(self).cloud() == old(self).cloud(),
            final(self).polling() == old(self).polling(),
            old(self).shown() == Some(english) ==> title is None,
            old(self).shown() != Some(english) ==> (title matches Some(t) && t@ == mode_title(
                english,
                old(self).cloud(),
            )),
    {
        if self.english == Some(english) {
            return None;
        }
        self.english = Some(english);
        let mut title = if english {
            String::from_str("英")
        } else {
            String::from_str("中")
        };
        if self.cloud {
            title.append(" \u{2601}\u{fe0e}");
        }
        proof {
            reveal_strlit("英");
            reveal_strlit("中");
            reveal_strlit(" \u{2601}\u{fe0e}");
        }
        Some(title)
    }

    /// The input method became active: the title is redrawn whatever it showed, and
    /// the poll timer starts unless it already runs. Answers the title and whether
    /// the shell must start the timer.
    pub fn activate(&mut self, english: bool) -> (r: (String, bool))
        ensures
            r.0@ == mode_title(english, old(self).cloud()),
            r.1 == !old(self).polling(),
            final(self).shown() == Some(english),
            final(self).cloud() == old(self).cloud(),
            final(self).polling(),
    {
        self.english = None;
        let title = match self.update(english) {
            Some(t) => t,
            None => String::new(),
        };
        let start = !self.polling;
        self.polling = true;
        (title, start)
    }

    /// The input method went inactive: only the timer stops (answers whether one was
    /// running); the item stays and keeps its last title.
    pub fn deactivate(&mut self) -> (stop: bool)
        ensures
            stop == old(self).polling(),
            !final(self).polling(),
            final(self).shown() == old(self).shown(),
            final(self).cloud() == old(self).cloud(),
    {
        let stop = self.polling;
        self.polling = false;
        stop
    }

    /// Cloud prediction switched: the next update redraws the title.
    pub fn set_cloud(&mut self, cloud: bool)
        ensures
            final(self).cloud() == cloud,
            final(self).shown() is None,
            final(self).polling() == old(self).polling(),
    {
        self.cloud = cloud;
        self.english = None;
    }
}

} // verus!
