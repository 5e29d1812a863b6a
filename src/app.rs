use vstd::prelude::*;

use std::time::Duration;

verus! {

/// The interface between the engine and a game: the engine calls `tick` once
/// per frame to update the game's state, then `present` to let it draw.
///
/// `present` gets the live screen as three planes of 32-bit values, one cell
/// each, row by row. In the two colour planes the lowest 8 bits are red, then
/// green, then blue, and the top 8 bits alpha, which the engine does not use.
/// In the glyph plane the lowest 8 bits select a glyph of the font; the other
/// 24 bits are the game's to use.
pub trait App {
    /// Called once per frame to update the game state; says whether the game
    /// goes on or quits.
    fn tick(&mut self, tick_input: TickInput) -> TickResult;

    /// Called once per frame to draw the game; says whether the screen has
    /// changed since the last frame.
    fn present(&mut self, present_input: PresentInput) -> PresentResult;
}

/// Whether the game should continue or quit.
#[derive(Clone, Copy, Debug, Eq, PartialEq, Structural)]
pub enum TickResult {
    /// The game should continue.
    Continue,
    /// The game should quit.
    Quit,
}

/// Whether the screen has changed since the last frame.
#[derive(Clone, Copy, Debug, Eq, PartialEq, Structural)]
pub enum PresentResult {
    /// The screen has changed since the last frame.
    Changed,
    /// The screen has not changed since the last frame.
    NoChanges,
}

/// What `tick` learns about the current frame.
#[derive(Clone, Copy, Debug, Eq, PartialEq)]
pub struct TickInput {
    /// The time since the last frame.
    pub dt: Duration,
    /// The width of the window in characters.
    pub width: u32,
    /// The height of the window in characters.
    pub height: u32,
}

/// What `present` gets for the current frame: the live screen, borrowed for
/// the length of the call.
#[derive(Debug)]
pub struct PresentInput<'textures> {
    /// The width of the window in characters.
    pub width: u32,
    /// The height of the window in characters.
    pub height: u32,
    /// The foreground colour of each character.
    pub fore_image: &'textures mut [u32],
    /// The background colour of each character.
    pub back_image: &'textures mut [u32],
    /// The glyph of each character.
    pub text_image: &'textures mut [u32],
}

} // verus!
