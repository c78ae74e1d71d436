//! Axis-aligned rectangle and point types in unsigned cell coordinates.

use vstd::prelude::*;

verus! {

#[derive(Debug, Clone, Copy, PartialEq, Eq, Structural)]
pub struct TPoint {
    pub x: u16,
    pub y: u16,
}

#[derive(Debug, Clone, Copy, PartialEq, Eq, Structural)]
pub struct TRect {
    pub x: u16,
    pub y: u16,
    pub width: u16,
    pub height: u16,
}

impl TRect {
    /// Whether a point falls inside this rectangle. A rectangle with zero
    /// width or height contains no point.
    pub open spec fn spec_contains(self, pt: TPoint) -> bool {
        &&& pt.x >= self.x
        &&& (pt.x as int) < self.x + self.width
        &&& pt.y >= self.y
        &&& (pt.y as int) < self.y + self.height
    }

    pub fn new(x: u16, y: u16, width: u16, height: u16) -> (r: Self)
        ensures
            r == (TRect { x, y, width, height }),
    {
        Self { x, y, width, height }
    }

    pub fn contains(&self, pt: TPoint) -> (r: bool)
        ensures
            r == self.spec_contains(pt),
    {
        pt.x >= self.x && (pt.x as u32) < self.x as u32 + self.width as u32
            && pt.y >= self.y && (pt.y as u32) < self.y as u32 + self.height as u32
    }
}

} // verus!
