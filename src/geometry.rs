//! Plain geometric values shared by the atlas and sprite models.
use vstd::prelude::*;

verus! {

/// An integer pixel quantity along the two axes (an offset or a width/height).
#[derive(Clone, Copy, Debug, PartialEq, Eq, Structural)]
pub struct Pixels {
    pub x: u32,
    pub y: u32,
}

/// An exact non-negative rational number `num / den`.
#[derive(Clone, Copy, Debug, PartialEq, Eq, Structural)]
pub struct Ratio {
    pub num: u64,
    pub den: u64,
}

/// A point in normalized texture space, each coordinate an exact rational.
#[derive(Clone, Copy, Debug, PartialEq, Eq, Structural)]
pub struct Uv {
    pub x: Ratio,
    pub y: Ratio,
}

impl Pixels {
    /// The same quantity with its two components exchanged.
    pub open spec fn spec_swapped(self) -> Pixels {
        Pixels { x: self.y, y: self.x }
    }

    pub fn swapped(&self) -> (r: Pixels)
        ensures
            r == self.spec_swapped(),
    {
        Pixels { x: self.y, y: self.x }
    }
}

impl Ratio {
    /// The fraction is at most one.
    pub open spec fn spec_le_one(self) -> bool {
        self.num <= self.den
    }
}

} // verus!
