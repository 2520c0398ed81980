//! Integer rectangles and point containment.

use vstd::prelude::*;

verus! {

/// Largest width or height a layer rectangle may have. The rendering backend
/// addresses pixels with 32-bit signed coordinates, so a dimension never
/// exceeds `i32::MAX`.
pub const MAX_DIM: u32 = 0x7fff_ffff;

/// Lowest origin coordinate a layer rectangle can reach. Origins start as
/// 32-bit pointer coordinates and a drag moves them to `pointer - offset`
/// with `0 <= offset < MAX_DIM`, so they stay in
/// `[i32::MIN - (i32::MAX), i32::MAX]`.
pub const ORIGIN_MIN: i64 = -0xffff_ffff;

/// Highest origin coordinate a layer rectangle can reach.
pub const ORIGIN_MAX: i64 = 0x7fff_ffff;

/// A positioned rectangle: origin `(x, y)`, extent `w` by `h`.
/// Zero-width or zero-height rectangles are legal; they contain no point.
#[derive(Clone, Copy, PartialEq, Eq, Structural, Debug)]
pub struct Rect {
    pub x: i64,
    pub y: i64,
    pub w: u32,
    pub h: u32,
}

impl Rect {
    /// Well-formed: the origin lies in the range drags can reach and the
    /// extent fits the renderer's signed 32-bit coordinates.
    pub open spec fn wf(self) -> bool {
        &&& ORIGIN_MIN <= self.x <= ORIGIN_MAX
        &&& ORIGIN_MIN <= self.y <= ORIGIN_MAX
        &&& self.w <= MAX_DIM
        &&& self.h <= MAX_DIM
    }

    /// A point lies in the rectangle when it is at or right of the left edge,
    /// strictly left of the right edge, and likewise vertically.
    pub open spec fn spec_contains(self, px: int, py: int) -> bool {
        &&& self.x <= px < self.x + self.w
        &&& self.y <= py < self.y + self.h
    }

    pub fn new(x: i32, y: i32, w: u32, h: u32) -> (r: Rect)
        requires
            w <= MAX_DIM,
            h <= MAX_DIM,
        ensures
            r == (Rect { x: x as i64, y: y as i64, w, h }),
            r.wf(),
    {
        Rect { x: x as i64, y: y as i64, w, h }
    }

    pub fn contains(&self, px: i32, py: i32) -> (b: bool)
        requires
            self.wf(),
        ensures
            b == self.spec_contains(px as int, py as int),
    {
        let fx = px as i64;
        let fy = py as i64;
        fx >= self.x && fx < self.x + self.w as i64 && fy >= self.y && fy < self.y + self.h as i64
    }
}

} // verus!
