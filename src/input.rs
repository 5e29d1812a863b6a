use vstd::prelude::*;

verus! {

/// Which of the shift, control and alt keys are held down.
#[derive(Clone, Copy, Debug, PartialEq, Eq, Structural)]
pub struct ShiftState {
    shift: bool,
    ctrl: bool,
    alt: bool,
}

impl ShiftState {
    pub closed spec fn spec_shift(self) -> bool {
        self.shift
    }

    pub closed spec fn spec_ctrl(self) -> bool {
        self.ctrl
    }

    pub closed spec fn spec_alt(self) -> bool {
        self.alt
    }

    /// No key held.
    pub fn new() -> (r: Self)
        ensures
            !r.spec_shift(),
            !r.spec_ctrl(),
            !r.spec_alt(),
    {
        Self { shift: false, ctrl: false, alt: false }
    }

    pub fn shift_down(&self) -> (r: bool)
        ensures
            r == self.spec_shift(),
    {
        self.shift
    }

    pub fn ctrl_down(&self) -> (r: bool)
        ensures
            r == self.spec_ctrl(),
    {
        self.ctrl
    }

    pub fn alt_down(&self) -> (r: bool)
        ensures
            r == self.spec_alt(),
    {
        self.alt
    }

    pub fn shift_only(&self) -> (r: bool)
        ensures
            r == (self.spec_shift() && !self.spec_ctrl() && !self.spec_alt()),
    {
        self.shift && !self.ctrl && !self.alt
    }

    pub fn ctrl_only(&self) -> (r: bool)
        ensures
            r == (!self.spec_shift() && self.spec_ctrl() && !self.spec_alt()),
    {
        !self.shift && self.ctrl && !self.alt
    }

    pub fn alt_only(&self) -> (r: bool)
        ensures
            r == (!self.spec_shift() && !self.spec_ctrl() && self.spec_alt()),
    {
        !self.shift && !self.ctrl && self.alt
    }

    pub fn shift_ctrl(&self) -> (r: bool)
        ensures
            r == (self.spec_shift() && self.spec_ctrl() && !self.spec_alt()),
    {
        self.shift && self.ctrl && !self.alt
    }

    pub fn shift_alt(&self) -> (r: bool)
        ensures
            r == (self.spec_shift() && !self.spec_ctrl() && self.spec_alt()),
    {
        self.shift && !self.ctrl && self.alt
    }

    pub fn ctrl_alt(&self) -> (r: bool)
        ensures
            r == (!self.spec_shift() && self.spec_ctrl() && self.spec_alt()),
    {
        !self.shift && self.ctrl && self.alt
    }

    pub fn shift_ctrl_alt(&self) -> (r: bool)
        ensures
            r == (self.spec_shift() && self.spec_ctrl() && self.spec_alt()),
    {
        self.shift && self.ctrl && self.alt
    }

    /// Records the keys that the window's latest modifier event reports held.
    pub fn update(&mut self, shift: bool, ctrl: bool, alt: bool)
        ensures
            final(self).spec_shift() == shift,
            final(self).spec_ctrl() == ctrl,
            final(self).spec_alt() == alt,
    {
        self.shift = shift;
        self.ctrl = ctrl;
        self.alt = alt;
    }
}

impl Default for ShiftState {
    fn default() -> (r: Self)
        ensures
            !r.spec_shift(),
            !r.spec_ctrl(),
            !r.spec_alt(),
    {
        Self::new()
    }
}

} // verus!
