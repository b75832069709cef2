//! Color keyframe primitives: an RGB color and a timestamped RGB color
//! with a fade flag. Channels are integers in the range 0-255; the fade
//! flag is metadata for downstream rendering and is never consulted by
//! simplification.

use vstd::prelude::*;
use crate::point::COORD_LIMIT;
use crate::series::Timed;

verus! {

/// An RGB color.
#[derive(Clone, Copy, PartialEq, Eq, Structural, Debug)]
pub struct Color3D {
    pub r: u8,
    pub g: u8,
    pub b: u8,
}

impl Color3D {
    pub fn new(r: u8, g: u8, b: u8) -> (c: Self)
        ensures
            c == (Color3D { r, g, b }),
    {
        Color3D { r, g, b }
    }

    /// A copy of this color placed at the given timestamp. `is_fade`
    /// selects interpolating linearly from the previous keyframe (true)
    /// versus holding the previous color until this timestamp and then
    /// jumping (false).
    pub fn at_time(&self, t: i64, is_fade: bool) -> (c: Color4D)
        requires
            -COORD_LIMIT <= t <= COORD_LIMIT,
        ensures
            c == (Color4D { t, r: self.r, g: self.g, b: self.b, is_fade }),
            c.wf(),
    {
        Color4D { t, r: self.r, g: self.g, b: self.b, is_fade }
    }
}

/// An RGB color keyframe in time.
#[derive(Clone, Copy, PartialEq, Eq, Structural, Debug)]
pub struct Color4D {
    pub t: i64,
    pub r: u8,
    pub g: u8,
    pub b: u8,
    pub is_fade: bool,
}

impl Color4D {
    pub open spec fn wf(self) -> bool {
        -COORD_LIMIT <= self.t <= COORD_LIMIT
    }
}

impl Timed for Color4D {
    open spec fn time(self) -> int {
        self.t as int
    }

    fn time_exec(&self) -> (t: i64)
        ensures
            t as int == self.time(),
    {
        self.t
    }
}

} // verus!
