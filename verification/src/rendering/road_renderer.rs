use vstd::prelude::*;
use crate::constants::{LINE_SPACING, WINDOW_SIZE};
use crate::geometry::rect::Rect;

verus! {

/// A line segment between two pixels.
pub type Segment = ((i32, i32), (i32, i32));

/// Segment `m` of the lane markers: four per marker, for markers at 5 to 11 lane widths,
/// drawn above and below the intersection at the marker's column, then left and right
/// of it at the marker's row.
pub open spec fn marker_segment(m: int) -> Segment {
    let v = ((m / 4 + 5) * LINE_SPACING) as i32;
    let lo = (5 * LINE_SPACING) as i32;
    let hi = (11 * LINE_SPACING) as i32;
    let w = WINDOW_SIZE as i32;
    if m % 4 == 0 {
        ((v, 0i32), (v, lo))
    } else if m % 4 == 1 {
        ((v, hi), (v, w))
    } else if m % 4 == 2 {
        ((0i32, v), (lo, v))
    } else {
        ((hi, v), (w, v))
    }
}

/// The road layout: a vertical and a horizontal road six lanes wide crossing in the
/// middle of the window, with lane markers outside the intersection.
pub struct RoadRenderer;

impl RoadRenderer {
    /// The road surface: the vertical road, then the horizontal one.
    pub fn road_surface_rects() -> (r: (Rect, Rect))
        ensures
            r.0.left() == 5 * LINE_SPACING && r.0.top() == 0,
            r.0.spec_width() == 6 * LINE_SPACING && r.0.spec_height() == WINDOW_SIZE,
            r.1.left() == 0 && r.1.top() == 5 * LINE_SPACING - 1,
            r.1.spec_width() == WINDOW_SIZE && r.1.spec_height() == 6 * LINE_SPACING,
    {
        let vertical = Rect::new(5 * LINE_SPACING, 0, (11 - 5) * LINE_SPACING as u32, WINDOW_SIZE);
        let horizontal = Rect::new(0, 5 * LINE_SPACING - 1, WINDOW_SIZE, (11 - 5) * LINE_SPACING as u32);
        (vertical, horizontal)
    }

    /// The lane-marker segments, four per marker from 5 to 11 lane widths.
    pub fn lane_marker_lines() -> (r: Vec<Segment>)
        ensures
            r@.len() == 28,
            forall|m: int| 0 <= m < 28 ==> #[trigger] r@[m] == marker_segment(m),
    {
        let mut lines: Vec<Segment> = Vec::new();
        let mut i: i32 = 5;
        while i <= 11
            invariant
                5 <= i <= 12,
                lines@.len() == 4 * (i - 5),
                forall|m: int| 0 <= m < lines@.len() ==> #[trigger] lines@[m] == marker_segment(m),
            decreases 12 - i,
        {
            let x = i * LINE_SPACING;
            let ghost before = lines@;
            lines.push(((x, 0), (x, 5 * LINE_SPACING)));
            lines.push(((x, 11 * LINE_SPACING), (x, WINDOW_SIZE as i32)));
            lines.push(((0, x), (5 * LINE_SPACING, x)));
            lines.push(((11 * LINE_SPACING, x), (WINDOW_SIZE as i32, x)));
            proof {
                let n = before.len() as int;
                assert forall|m: int| 0 <= m < lines@.len() implies #[trigger] lines@[m] == marker_segment(m) by {
                    if m < n {
                        assert(lines@[m] == before[m]);
                    } else {
                        assert(m / 4 == i - 5);
                    }
                }
            }
            i = i + 1;
        }
        lines
    }
}

} // verus!
