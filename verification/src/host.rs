//! The shell's side of neural correction and of the Chinese / English mode: what it
//! decides when a query finishes, when the debounce timer fires, when the poll timer
//! fires and when the model loader reports. The shell runs the timers, the loader
//! thread and the worker, re-queries and redraws; these functions decide.

use vstd::prelude::*;

use crate::correction::{ready_view, received_all, Engine, ReadyView};
use crate::indicator::{mode_title, ModeIndicator};

verus! {

/// The correction timer the shell runs: idle, waiting out the pause before asking
/// the model, or polling the worker for its answer.
#[derive(Debug, Clone, Copy, PartialEq, Eq, Structural)]
pub enum CorrectionTimer {
    Idle,
    Debouncing,
    Polling,
}

/// What the model loader thread reported when the shell last looked.
#[derive(Debug, Clone, Copy, PartialEq, Eq, Structural)]
pub enum LoaderReport {
    /// The model loaded; the shell started its worker (`alive` when the worker thread
    /// is running).
    Loaded { alive: bool },
    /// The model failed to load.
    Failed,
    /// Still loading.
    Pending,
    /// The loader thread is gone without an answer.
    Disconnected,
}

/// The shell state the decisions read and change.
pub struct Host {
    /// The engine's correction state.
    pub engine: Engine,
    /// English mode (Shift tapped) rather than Chinese.
    english: bool,
    /// The correction timer.
    correction: CorrectionTimer,
    /// A loader thread is running.
    corrector_loading: bool,
    /// Finished jobs the worker has handed over and the engine has not taken yet.
    arrived: Vec<(String, Vec<String>)>,
    /// The menu-bar mode item.
    pub indicator: ModeIndicator,
}

impl Host {
    pub closed spec fn engine(self) -> Engine {
        self.engine
    }

    pub closed spec fn english(self) -> bool {
        self.english
    }

    pub closed spec fn timer(self) -> CorrectionTimer {
        self.correction
    }

    pub closed spec fn loading(self) -> bool {
        self.corrector_loading
    }

    pub closed spec fn arrived(self) -> ReadyView {
        ready_view(self.arrived@)
    }

    pub closed spec fn indicator(self) -> ModeIndicator {
        self.indicator
    }

    pub open spec fn wf(self) -> bool {
        self.engine().wf()
    }

    /// Whether English mode is on.
    pub fn is_english(&self) -> (english: bool)
        ensures
            english == self.english(),
    {
        self.english
    }

    /// Where the correction timer stands.
    pub fn timer_state(&self) -> (timer: CorrectionTimer)
        ensures
            timer == self.timer(),
    {
        self.correction
    }

    /// Chinese mode, no corrector, the timer idle; `loading` when a loader thread was
    /// started.
    pub fn new(loading: bool) -> (h: Self)
        ensures
            h.wf(),
            !h.english(),
            h.timer() == CorrectionTimer::Idle,
            h.loading() == loading,
            h.arrived().len() == 0,
            h.engine().worker() is None,
            h.engine().wanted() is None,
            h.engine().ready().len() == 0,
            h.engine().cache() is None,
            h.indicator().shown() is None,
            !h.indicator().cloud(),
            !h.indicator().polling(),
    {
        Host {
            engine: Engine::new(),
            english: false,
            correction: CorrectionTimer::Idle,
            corrector_loading: loading,
            arrived: Vec::new(),
            indicator: ModeIndicator::new(),
        }
    }

    /// Switches straight to English (`true`) or Chinese mode and refreshes the mode
    /// item: answers its new title when it changed, for the shell to show.
    pub fn set_english(&mut self, english: bool) -> (title: Option<String>)
        ensures
            final(self).english() == english,
            final(self).indicator().shown() == Some(english),
            final(self).indicator().cloud() == old(self).indicator().cloud(),
            final(self).indicator().polling() == old(self).indicator().polling(),
            old(self).indicator().shown() == Some(english) ==> title is None,
            old(self).indicator().shown() != Some(english) ==> (title matches Some(t) && t@
                == mode_title(english, old(self).indicator().cloud())),
            final(self).engine() == old(self).engine(),
            final(self).timer() == old(self).timer(),
            final(self).loading() == old(self).loading(),
            final(self).arrived() == old(self).arrived(),
    {
        self.english = english;
        self.indicator.update(english)
    }

    /// Flips the mode. Pinyin being composed is committed as it is, before the switch:
    /// the composition (`composition`) is emptied and its text handed back, for the
    /// shell to insert. Also answers the mode item's new title, when it changed.
    pub fn toggle_english(&mut self, composition: &mut String) -> (out: (String, Option<String>))
        ensures
            out.0@ == old(composition)@,
            final(composition)@ == Seq::<char>::empty(),
            final(self).english() == !old(self).english(),
            final(self).indicator().shown() == Some(!old(self).english()),
            final(self).indicator().cloud() == old(self).indicator().cloud(),
            final(self).indicator().polling() == old(self).indicator().polling(),
            old(self).indicator().shown() == Some(!old(self).english()) ==> out.1 is None,
            old(self).indicator().shown() != Some(!old(self).english()) ==> (out.1 matches Some(t)
                && t@ == mode_title(!old(self).english(), old(self).indicator().cloud())),
            final(self).engine() == old(self).engine(),
            final(self).timer() == old(self).timer(),
            final(self).loading() == old(self).loading(),
            final(self).arrived() == old(self).arrived(),
    {
        let english = !self.english;
        let title = self.set_english(english);
        let mut raw = String::new();
        std::mem::swap(&mut raw, composition);
        (raw, title)
    }

    /// The loader reported: a loaded model becomes the engine's background worker and
    /// the loader is done; a failure or a vanished loader ends loading with no
    /// corrector; while loading nothing changes. Without a loader nothing changes.
    pub fn attach_loaded_corrector(&mut self, report: LoaderReport)
        requires
            old(self).wf(),
        ensures
            final(self).wf(),
            final(self).english() == old(self).english(),
            final(self).indicator() == old(self).indicator(),
            final(self).timer() == old(self).timer(),
            final(self).arrived() == old(self).arrived(),
            final(self).engine().wanted() == old(self).engine().wanted(),
            final(self).engine().ready() == old(self).engine().ready(),
            final(self).engine().cache() == old(self).engine().cache(),
            !old(self).loading() || report is Pending ==> final(self).loading() == old(self).loading()
                && final(self).engine().worker() == old(self).engine().worker(),
            old(self).loading() && !(report is Pending) ==> !final(self).loading(),
            old(self).loading() ==> match report {
                LoaderReport::Loaded { alive } => final(self).engine().worker() == Some(alive),
                _ => final(self).engine().worker() == old(self).engine().worker(),
            },
    {
        if !self.corrector_loading {
            return;
        }
        match report {
            LoaderReport::Loaded { alive } => {
                self.engine.set_correction_worker(Some(alive));
                self.corrector_loading = false;
            },
            LoaderReport::Failed | LoaderReport::Disconnected => {
                self.corrector_loading = false;
            },
            LoaderReport::Pending => {},
        }
    }

    /// The configuration turned correction off: no loader, no worker, timer idle.
    pub fn unload_corrector(&mut self)
        requires
            old(self).wf(),
        ensures
            final(self).wf(),
            !final(self).loading(),
            final(self).engine().worker() is None,
            final(self).timer() == CorrectionTimer::Idle,
            final(self).english() == old(self).english(),
            final(self).indicator() == old(self).indicator(),
            final(self).arrived() == old(self).arrived(),
            final(self).engine().wanted() == old(self).engine().wanted(),
            final(self).engine().ready() == old(self).engine().ready(),
            final(self).engine().cache() == old(self).engine().cache(),
    {
        self.corrector_loading = false;
        self.engine.set_correction_worker(None);
        self.correction = CorrectionTimer::Idle;
    }

    /// After each query: a scope waiting for the model (re)starts the debounce, so
    /// steady typing never asks it.
    pub fn schedule_correction(&mut self)
        ensures
            final(self).timer() == if old(self).engine().worker() == Some(true)
                && old(self).engine().wanted() is Some {
                CorrectionTimer::Debouncing
            } else {
                old(self).timer()
            },
            final(self).engine() == old(self).engine(),
            final(self).english() == old(self).english(),
            final(self).indicator() == old(self).indicator(),
            final(self).loading() == old(self).loading(),
            final(self).arrived() == old(self).arrived(),
    {
        if self.engine.correction_pending() {
            self.correction = CorrectionTimer::Debouncing;
        }
    }

    /// The debounce fired: with nothing being composed the timer stops; otherwise the
    /// noted scope is taken for the worker (answered, for the shell to send) and
    /// polling starts; with no scope or no worker nothing changes.
    pub fn start_correction(&mut self, composing: bool) -> (scope: Option<String>)
        requires
            old(self).wf(),
        ensures
            final(self).wf(),
            !composing ==> scope is None && final(self).timer() == CorrectionTimer::Idle
                && final(self).engine() == old(self).engine(),
            composing ==> match scope {
                Some(s) => old(self).engine().worker() is Some && old(self).engine().wanted() == Some(
                    s@,
                ) && final(self).engine().wanted() is None && final(self).timer()
                    == CorrectionTimer::Polling,
                None => (old(self).engine().worker() is None || old(self).engine().wanted() is None)
                    && final(self).engine().wanted() == old(self).engine().wanted()
                    && final(self).timer() == old(self).timer(),
            },
            final(self).engine().worker() == old(self).engine().worker(),
            final(self).engine().ready() == old(self).engine().ready(),
            final(self).engine().cache() == old(self).engine().cache(),
            final(self).english() == old(self).english(),
            final(self).indicator() == old(self).indicator(),
            final(self).loading() == old(self).loading(),
            final(self).arrived() == old(self).arrived(),
    {
        if !composing {
            self.correction = CorrectionTimer::Idle;
            return None;
        }
        let scope = self.engine.request_correction();
        if scope.is_some() {
            self.correction = CorrectionTimer::Polling;
        }
        scope
    }

    /// The worker handed over finished jobs (in the order they finished); they wait
    /// here until a poll takes them.
    pub fn deliver(&mut self, done: Vec<(String, Vec<String>)>)
        ensures
            final(self).arrived() == old(self).arrived() + ready_view(done@),
            final(self).engine() == old(self).engine(),
            final(self).english() == old(self).english(),
            final(self).indicator() == old(self).indicator(),
            final(self).timer() == old(self).timer(),
            final(self).loading() == old(self).loading(),
    {
        let mut done = done;
        let ghost before = self.arrived@;
        let ghost all = done@;
        self.arrived.append(&mut done);
        proof {
            assert(self.arrived@ =~= before + all);
            assert(ready_view(before + all) =~= ready_view(before) + ready_view(all));
        }
    }

    /// The poll timer fired. With nothing composed, or a translation showing, the timer
    /// stops and nothing is taken. Otherwise the engine takes the delivered jobs; with
    /// none, the timer stops only once the wait has `expired`. With some, the timer
    /// stops and the answer is whether to query again and redraw: only on the first
    /// page and before the user moved the highlight (`navigated`), else the
    /// nominations just wait for the next query.
    pub fn poll_correction(
        &mut self,
        composing: bool,
        translating: bool,
        expired: bool,
        page: usize,
        navigated: bool,
    ) -> (redraw: bool)
        requires
            old(self).wf(),
        ensures
            final(self).wf(),
            final(self).english() == old(self).english(),
            final(self).indicator() == old(self).indicator(),
            final(self).loading() == old(self).loading(),
            final(self).engine().worker() == old(self).engine().worker(),
            final(self).engine().wanted() == old(self).engine().wanted(),
            !composing || translating ==> !redraw && final(self).timer() == CorrectionTimer::Idle
                && final(self).engine() == old(self).engine() && final(self).arrived()
                == old(self).arrived(),
            composing && !translating ==> final(self).arrived().len() == 0 && ({
                let took = old(self).engine().worker() is Some && old(self).arrived().len() > 0;
                &&& took ==> final(self).engine().ready() == received_all(
                    old(self).engine().ready(),
                    old(self).arrived(),
                ) && final(self).engine().cache() is None
                    && final(self).timer() == CorrectionTimer::Idle
                    && redraw == (page == 0 && !navigated)
                &&& !took ==> !redraw && final(self).engine().ready() == old(self).engine().ready()
                    && final(self).engine().cache() == old(self).engine().cache()
                    && final(self).timer() == if expired {
                    CorrectionTimer::Idle
                } else {
                    old(self).timer()
                }
            }),
    {
        if !composing || translating {
            self.correction = CorrectionTimer::Idle;
            return false;
        }
        let mut done: Vec<(String, Vec<String>)> = Vec::new();
        std::mem::swap(&mut done, &mut self.arrived);
        proof {
            assert(ready_view(self.arrived@) =~= Seq::<(Seq<char>, Seq<Seq<char>>)>::empty());
        }
        if !self.engine.poll_correction(done) {
            if expired {
                self.correction = CorrectionTimer::Idle;
            }
            return false;
        }
        self.correction = CorrectionTimer::Idle;
        page == 0 && !navigated
    }
}

/// What follows a poll that asked for a redraw.
pub enum Requery<T> {
    /// The query failed: the session and the window stay as they are.
    Keep,
    /// Reset the session to the new query's candidates and preedit, put `cloud` back
    /// as its cloud slots when it is there, and redraw.
    Reset { cloud: Option<Vec<T>> },
}

/// After nominations arrived and the first page is showing, the shell queries
/// again. When the query fails nothing changes; when it succeeds the session is reset
/// to its candidates and preedit, the cloud slots the page had (`cloud`) are kept
/// when there were any, and the window is redrawn.
pub fn requery_step<T>(query_ok: bool, cloud: Vec<T>) -> (step: Requery<T>)
    ensures
        !query_ok ==> step is Keep,
        query_ok ==> (step matches Requery::Reset { cloud: c } && (cloud@.len() > 0 ==> (c matches Some(
            v,
        ) && v@ == cloud@)) && (cloud@.len() == 0 ==> c is None)),
{
    if !query_ok {
        return Requery::Keep;
    }
    if cloud.len() > 0 {
        Requery::Reset { cloud: Some(cloud) }
    } else {
        Requery::Reset { cloud: None }
    }
}

} // verus!
