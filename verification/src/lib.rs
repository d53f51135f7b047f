//! Qingjian's verified core: pixel arithmetic and blending for the candidate-window
//! renderer, the shadow blur, the `trak` table reader, the neural corrector's codec
//! and decoding bookkeeping, the asynchronous correction queue and the shell's
//! decisions around it, the font lists and the font picker, and the small state
//! machines and tables the platform shells share.

mod grid;
mod skia;
mod text;

pub mod canvas;
pub mod codec;
pub mod color;
pub mod config;
pub mod correction;
pub mod corrector;
pub mod error;
pub mod fonts;
pub mod frame;
pub mod host;
pub mod indicator;
pub mod layered;
pub mod refresh;
pub mod shadow;
pub mod shift;
pub mod sink;
pub mod theme;
pub mod trak;

pub use canvas::Canvas;
pub use error::RenderError;
pub use color::{mul_u8, premultiply, Color, PremultipliedRgba};
