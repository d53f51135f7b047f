//! Where candidate-window frames go: the router only produces frames and hands the
//! drawing to a sink (on Windows the UI thread implements one).

use vstd::prelude::*;

use crate::config::RenderSettings;

verus! {

/// The output end of the candidate window, generic over the shell's frame type `F`
/// and screen-rectangle type `R`.
pub trait CandidateSink<F, R>: Send {
    /// Places the window below `rect` (the composition's screen rectangle) and redraws
    /// it with `frame`.
    fn show(&self, frame: F, rect: R);

    /// Hides the window.
    fn hide_window(&self);

    /// Changes how it draws: on installation and after a configuration reload, only
    /// when the settings changed.
    fn configure(&self, settings: RenderSettings);
}

/// A sink that draws nothing.
pub struct NoopSink;

impl<F, R> CandidateSink<F, R> for NoopSink {
    fn show(&self, frame: F, rect: R) {
    }

    fn hide_window(&self) {
    }

    fn configure(&self, settings: RenderSettings) {
    }
}

} // verus!
