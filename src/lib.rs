//! A character-grid rendering engine: a grid of cells, each with a foreground
//! colour, a background colour and a glyph, drawn on the CPU and composited
//! onto a window with a fixed-size bitmap font.
//!
//! This crate holds the engine's logic: geometry and clipping, drawing into
//! cell planes, blitting onto the live screen, the window-size policy, and the
//! decisions of the GPU layer on resizes and failed frames.
use vstd::prelude::*;

pub mod app;
pub mod colour;
pub mod config;
pub mod error;
pub mod image;
pub mod input;
pub mod plane;
pub mod present;
pub mod render;

pub use app::{App, PresentInput, PresentResult, TickInput, TickResult};
pub use colour::Colour;
pub use config::{
    load_font_image, Config, Font, FontData, ResizeAction, ResizeTracker, WindowSize,
    WindowSizeData, MIN_WINDOW_SIZE,
};
pub use error::MageError;

verus! {

} // verus!
