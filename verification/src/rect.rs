//! Axis-aligned rectangle with derived maximum-corner accessors.

use vstd::prelude::*;

verus! {

/// A rectangle given by its minimum corner and its extent.
#[derive(Clone, Copy, Debug, PartialEq, Eq)]
pub struct Rect {
    /// Minimum x
    pub x: i32,
    /// Minimum y
    pub y: i32,
    pub width: u32,
    pub height: u32,
}

impl Rect {
    /// The largest x coordinate still covered by the rectangle:
    /// `x + width - 1`.
    pub fn max_x(&self) -> (r: i32)
        requires
            i32::MIN <= self.x + self.width - 1 <= i32::MAX,
        ensures
            r == self.x + self.width - 1,
    {
        ((self.x as i64) + (self.width as i64) - 1) as i32
    }

    /// The largest y coordinate still covered by the rectangle:
    /// `y + height - 1`.
    pub fn max_y(&self) -> (r: i32)
        requires
            i32::MIN <= self.y + self.height - 1 <= i32::MAX,
        ensures
            r == self.y + self.height - 1,
    {
        ((self.y as i64) + (self.height as i64) - 1) as i32
    }
}

} // verus!

