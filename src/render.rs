//! The state that the GPU layer keeps on the CPU side: the three live cell
//! planes that are uploaded each rendered frame, the grid they cover, and the
//! decisions taken on a resize and on a failed frame.
use vstd::prelude::*;

use std::time::Duration;

use crate::app::{App, PresentInput, PresentResult, TickInput, TickResult};

verus! {

/// What a new window size asks of the GPU layer.
#[derive(Clone, Copy, Debug, PartialEq, Eq, Structural)]
pub enum ResizePlan {
    /// A zero-sized window: nothing is done.
    Ignore,
    /// The surface is reconfigured; the grid keeps its size and contents.
    Reconfigure,
    /// The surface is reconfigured and the planes, with their textures, are
    /// made anew for a grid of this many columns and rows.
    Rebuild(u32, u32),
}

/// The plan for a window of `new_size` pixels, with the grid now `current`
/// cells and glyph cells of `font_char_size` pixels.
pub open spec fn spec_plan_resize(
    current: (u32, u32),
    font_char_size: (u32, u32),
    new_size: (u32, u32),
) -> ResizePlan {
    if new_size.0 == 0 || new_size.1 == 0 {
        ResizePlan::Ignore
    } else {
        let cols = (new_size.0 / font_char_size.0) as u32;
        let rows = (new_size.1 / font_char_size.1) as u32;
        if cols == current.0 && rows == current.1 {
            ResizePlan::Reconfigure
        } else {
            ResizePlan::Rebuild(cols, rows)
        }
    }
}

/// Decides what a resize to `new_size` pixels asks of the GPU layer: the grid
/// becomes the new size divided by the glyph cell size, and only where that
/// differs from `current` are the planes rebuilt.
pub fn plan_resize(current: (u32, u32), font_char_size: (u32, u32), new_size: (u32, u32)) -> (r:
    ResizePlan)
    requires
        font_char_size.0 > 0,
        font_char_size.1 > 0,
    ensures
        r == spec_plan_resize(current, font_char_size, new_size),
{
    if new_size.0 == 0 || new_size.1 == 0 {
        return ResizePlan::Ignore;
    }
    let cols = new_size.0 / font_char_size.0;
    let rows = new_size.1 / font_char_size.1;
    if cols == current.0 && rows == current.1 {
        ResizePlan::Reconfigure
    } else {
        ResizePlan::Rebuild(cols, rows)
    }
}

/// Why the next frame could not be had from the surface.
#[derive(Clone, Copy, Debug, PartialEq, Eq, Structural)]
pub enum FrameError {
    /// Acquiring the frame took too long.
    Timeout,
    /// The surface no longer matches the window.
    Outdated,
    /// The surface was lost.
    Lost,
    /// The GPU ran out of memory.
    OutOfMemory,
    /// Any other failure.
    Other,
}

/// What the engine does after a frame could not be had.
#[derive(Clone, Copy, Debug, PartialEq, Eq, Structural)]
pub enum FrameAction {
    /// Reconfigure the surface for the current window size and go on.
    Reconfigure,
    /// Stop the engine.
    Exit,
    /// Log the error, skip this frame and go on.
    Skip,
}

pub open spec fn spec_frame_action(e: FrameError) -> FrameAction {
    match e {
        FrameError::Lost | FrameError::Outdated => FrameAction::Reconfigure,
        FrameError::OutOfMemory => FrameAction::Exit,
        FrameError::Timeout | FrameError::Other => FrameAction::Skip,
    }
}

/// A stale or lost surface is reconfigured, running out of memory ends the
/// engine, and any other failure skips the frame.
pub fn on_frame_error(e: FrameError) -> (r: FrameAction)
    ensures
        r == spec_frame_action(e),
{
    match e {
        FrameError::Lost | FrameError::Outdated => FrameAction::Reconfigure,
        FrameError::OutOfMemory => FrameAction::Exit,
        FrameError::Timeout | FrameError::Other => FrameAction::Skip,
    }
}

/// The live screen: three planes of `surface_char_size` cells.
#[derive(Debug)]
pub struct Screen {
    /// The size of each glyph cell of the font, in pixels.
    pub font_char_size: (u32, u32),
    /// The size of the surface in cells.
    pub surface_char_size: (u32, u32),
    /// The foreground colour of each cell.
    pub fore_image: Vec<u32>,
    /// The background colour of each cell.
    pub back_image: Vec<u32>,
    /// The glyph of each cell.
    pub text_image: Vec<u32>,
}

/// `n` cells, all zero.
pub open spec fn zeroes(n: int) -> Seq<u32> {
    Seq::new(n as nat, |i: int| 0u32)
}

impl Screen {
    /// The glyph cells have a size, and each plane holds one value per cell.
    pub open spec fn wf(&self) -> bool {
        &&& self.font_char_size.0 > 0
        &&& self.font_char_size.1 > 0
        &&& self.fore_image@.len() == self.surface_char_size.0 * self.surface_char_size.1
        &&& self.back_image@.len() == self.surface_char_size.0 * self.surface_char_size.1
        &&& self.text_image@.len() == self.surface_char_size.0 * self.surface_char_size.1
    }

    /// The screen for a window of `pixel_size` pixels: as many whole glyph
    /// cells as fit, every plane zero.
    pub fn new(font_char_size: (u32, u32), pixel_size: (u32, u32)) -> (r: Self)
        requires
            font_char_size.0 > 0,
            font_char_size.1 > 0,
            (pixel_size.0 / font_char_size.0) * (pixel_size.1 / font_char_size.1) <= usize::MAX,
        ensures
            r.wf(),
            r.font_char_size == font_char_size,
            r.surface_char_size == ((pixel_size.0 / font_char_size.0) as u32, (pixel_size.1
                / font_char_size.1) as u32),
            r.fore_image@ == zeroes(r.surface_char_size.0 * r.surface_char_size.1),
            r.back_image@ == zeroes(r.surface_char_size.0 * r.surface_char_size.1),
            r.text_image@ == zeroes(r.surface_char_size.0 * r.surface_char_size.1),
    {
        let cols = pixel_size.0 / font_char_size.0;
        let rows = pixel_size.1 / font_char_size.1;
        let size = cols as usize * rows as usize;
        let fore_image: Vec<u32> = vec![0; size];
        let back_image: Vec<u32> = vec![0; size];
        let text_image: Vec<u32> = vec![0; size];
        assert(fore_image@ =~= zeroes(cols * rows));
        assert(back_image@ =~= zeroes(cols * rows));
        assert(text_image@ =~= zeroes(cols * rows));
        Self { font_char_size, surface_char_size: (cols, rows), fore_image, back_image, text_image }
    }

    /// The size of the surface in cells.
    pub fn size_in_chars(&self) -> (r: (u32, u32))
        ensures
            r == self.surface_char_size,
    {
        self.surface_char_size
    }

    /// What `tick` is told for a frame that took `dt`.
    pub fn tick_input(&self, dt: Duration) -> (r: TickInput)
        ensures
            r.dt == dt,
            r.width == self.surface_char_size.0,
            r.height == self.surface_char_size.1,
    {
        TickInput { dt, width: self.surface_char_size.0, height: self.surface_char_size.1 }
    }

    /// Lends the three planes, with the grid's size, as what `present` gets.
    pub fn present_input(&mut self) -> (r: PresentInput<'_>)
        ensures
            r.width == old(self).surface_char_size.0,
            r.height == old(self).surface_char_size.1,
            r.fore_image@ == old(self).fore_image@,
            r.back_image@ == old(self).back_image@,
            r.text_image@ == old(self).text_image@,
            final(self).font_char_size == old(self).font_char_size,
            final(self).surface_char_size == old(self).surface_char_size,
            final(self).fore_image@ == final(r.fore_image)@,
            final(self).back_image@ == final(r.back_image)@,
            final(self).text_image@ == final(r.text_image)@,
    {
        PresentInput {
            width: self.surface_char_size.0,
            height: self.surface_char_size.1,
            fore_image: self.fore_image.as_mut_slice(),
            back_image: self.back_image.as_mut_slice(),
            text_image: self.text_image.as_mut_slice(),
        }
    }

    /// Follows a resize of the window to `new_size` pixels.
    ///
    /// Where the grid keeps its size in cells, the planes and their contents
    /// stay as they are; otherwise they are made anew, zero, for the new grid.
    /// The returned plan tells the caller what to do with the surface and the
    /// textures.
    pub fn resize(&mut self, new_size: (u32, u32)) -> (r: ResizePlan)
        requires
            old(self).font_char_size.0 > 0,
            old(self).font_char_size.1 > 0,
            (new_size.0 / old(self).font_char_size.0) * (new_size.1 / old(self).font_char_size.1)
                <= usize::MAX,
        ensures
            r == spec_plan_resize(old(self).surface_char_size, old(self).font_char_size, new_size),
            final(self).font_char_size == old(self).font_char_size,
            old(self).wf() ==> final(self).wf(),
            new_size.0 / old(self).font_char_size.0 == old(self).surface_char_size.0
                && new_size.1 / old(self).font_char_size.1 == old(self).surface_char_size.1
                ==> *final(self) == *old(self),
            match r {
                ResizePlan::Rebuild(cols, rows) => {
                    &&& final(self).surface_char_size == (cols, rows)
                    &&& final(self).fore_image@ == zeroes(cols * rows)
                    &&& final(self).back_image@ == zeroes(cols * rows)
                    &&& final(self).text_image@ == zeroes(cols * rows)
                },
                _ => *final(self) == *old(self),
            },
    {
        let plan = plan_resize(self.surface_char_size, self.font_char_size, new_size);
        if let ResizePlan::Rebuild(cols, rows) = plan {
            let fresh = Screen::new(self.font_char_size, new_size);
            *self = fresh;
        }
        plan
    }
}

/// Hands the app the frame's time step and grid size, and returns its answer.
pub fn tick<A: App>(app: &mut A, screen: &Screen, dt: Duration) -> TickResult {
    let tick_input = screen.tick_input(dt);
    app.tick(tick_input)
}

/// A frame is drawn only when the app reports that the screen changed.
pub fn should_render(r: PresentResult) -> (b: bool)
    ensures
        b == (r == PresentResult::Changed),
{
    match r {
        PresentResult::Changed => true,
        PresentResult::NoChanges => false,
    }
}

/// Lends the app the live planes for the length of its `present` call, and
/// returns whether it changed them.
pub fn present<A: App>(app: &mut A, screen: &mut Screen) -> (r: PresentResult)
    ensures
        final(screen).font_char_size == old(screen).font_char_size,
        final(screen).surface_char_size == old(screen).surface_char_size,
{
    let present_input = screen.present_input();
    app.present(present_input)
}

} // verus!
