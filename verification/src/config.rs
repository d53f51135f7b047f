//! Settings the shells read: who draws the candidate window, the neural-correction
//! switch, and the drawing settings handed to the candidate window.

use vstd::prelude::*;

verus! {

/// Who draws the candidate window: Qingjian's own renderer (the same on every
/// platform, and the one themes apply to) or the platform's native drawing, kept as
/// a fallback for the transition.
#[derive(Debug, Clone, Copy, PartialEq, Eq, Structural)]
pub enum CandidateRenderer {
    /// Qingjian's renderer draws a bitmap; the shell only pastes it.
    Qingjian,
    /// Native drawing (AppKit on macOS, GDI on Windows).
    System,
}

impl Default for CandidateRenderer {
    fn default() -> (r: Self)
        ensures
            r == CandidateRenderer::Qingjian,
    {
        CandidateRenderer::Qingjian
    }
}

impl CandidateRenderer {
    /// Every value, in the order the settings page lists them.
    pub const ALL: [CandidateRenderer; 2] = [CandidateRenderer::Qingjian, CandidateRenderer::System];

    /// How the value is written in the configuration file.
    pub fn key(self) -> (k: &'static str)
        ensures
            self == CandidateRenderer::Qingjian ==> k@ == "qingjian"@,
            self == CandidateRenderer::System ==> k@ == "system"@,
    {
        match self {
            CandidateRenderer::Qingjian => "qingjian",
            CandidateRenderer::System => "system",
        }
    }

    /// The name shown in the settings.
    pub fn label(self) -> (l: &'static str)
        ensures
            self == CandidateRenderer::Qingjian ==> l@ == "青简渲染器"@,
            self == CandidateRenderer::System ==> l@ == "系统绘制"@,
    {
        match self {
            CandidateRenderer::Qingjian => "青简渲染器",
            CandidateRenderer::System => "系统绘制",
        }
    }
}

/// The `[correction]` section: the neural pinyin-correction switch. Pinyin with more
/// than one typo, which the rules cannot fix, asks the local correction model for a
/// nomination, fully offline. Without the model files the switch has no effect.
#[derive(Debug, Clone, PartialEq, Eq, Structural)]
pub struct CorrectionConfig {
    /// When on, the model is loaded and backs up the rules.
    pub enabled: bool,
}

impl Default for CorrectionConfig {
    fn default() -> (c: Self)
        ensures
            c.enabled,
    {
        CorrectionConfig { enabled: true }
    }
}

/// How the candidate window and the status bar are drawn.
#[derive(Debug, Clone, PartialEq, Eq)]
pub struct RenderSettings {
    /// Who draws (`[general] renderer`).
    pub renderer: CandidateRenderer,
    /// The font family (`[general] font`); empty for the system font.
    pub font: String,
}

} // verus!
