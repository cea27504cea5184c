use vstd::prelude::*;
use crate::geometry::rect::Rect;

verus! {

/// Whether a rectangle of side `size` at `(x, y)` still shows in a square window of
/// side `window_size`: it has not fully left over the top or left edge (`x > -size`) and
/// its corner has not passed the right or bottom edge.
pub open spec fn spec_in_bounds(x: int, y: int, size: int, window_size: int) -> bool {
    &&& x > -size
    &&& x < window_size
    &&& y > -size
    &&& y < window_size
}

/// Tests of a rectangle against the window.
pub trait RectExtensions {
    fn is_in_bounds(&self, window_size: u32) -> bool;
}

impl RectExtensions for Rect {
    /// The rectangle is judged by its width alone, as vehicles are square.
    fn is_in_bounds(&self, window_size: u32) -> (r: bool)
        ensures
            r == spec_in_bounds(self.left(), self.top(), self.spec_width() as i32 as int,
                window_size as i32 as int),
    {
        let size: i64 = self.width() as i32 as i64;
        let ws: i64 = window_size as i32 as i64;
        let x: i64 = self.x() as i64;
        let y: i64 = self.y() as i64;
        x > -size && x < ws && y > -size && y < ws
    }
}

} // verus!
