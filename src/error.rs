use vstd::prelude::*;

verus! {

/// What can stop the engine from starting.
#[derive(Clone, Copy, Debug, PartialEq, Eq, Structural)]
pub enum MageError {
    /// The window could not be opened.
    WindowError,
    /// No rendering surface could be made for the window.
    CreateSurfaceError,
    /// No suitable GPU adapter was found.
    BadAdapter,
    /// No GPU device could be had from the adapter.
    BadDevice,
    /// The font image could not be decoded.
    BadFont,
    /// The font image's sides are not a positive multiple of 16 pixels.
    InvalidFontImage,
}

impl MageError {
    pub open spec fn spec_message(self) -> Seq<char> {
        match self {
            MageError::WindowError => "unable to open window"@,
            MageError::CreateSurfaceError => "unable to create rendering surface"@,
            MageError::BadAdapter => "unable to create GPU adapter"@,
            MageError::BadDevice => "unable to create GPU device"@,
            MageError::BadFont => "unable to load font"@,
            MageError::InvalidFontImage => "font image is invalid"@,
        }
    }

    /// A short description of the error.
    pub fn message(&self) -> (r: &'static str)
        ensures
            r@ == self.spec_message(),
    {
        match self {
            MageError::WindowError => "unable to open window",
            MageError::CreateSurfaceError => "unable to create rendering surface",
            MageError::BadAdapter => "unable to create GPU adapter",
            MageError::BadDevice => "unable to create GPU device",
            MageError::BadFont => "unable to load font",
            MageError::InvalidFontImage => "font image is invalid",
        }
    }
}

} // verus!
