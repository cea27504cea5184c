use vstd::prelude::*;
use crate::constants::{INTERSECTION_MAX, INTERSECTION_MIN, LINE_SPACING};
use crate::geometry::position::{in_intersection, out_of_intersection, Position};

verus! {

/// Tests of a position against the intersection square and the outgoing lanes.
pub struct IntersectionBounds;

impl IntersectionBounds {
    /// Whether a vehicle-sized square at `position` overlaps the intersection square
    /// (sharing an edge does not count).
    pub fn is_position_in_intersection(position: &Position) -> (r: bool)
        ensures
            r == in_intersection(*position),
    {
        // `x + VEHICLE_SIZE > INTERSECTION_MIN`, written so that it cannot overflow.
        position.x < INTERSECTION_MAX
            && position.x > INTERSECTION_MIN - 50
            && position.y < INTERSECTION_MAX
            && position.y > INTERSECTION_MIN - 50
    }

    /// Whether `position` lies on one of the four outgoing lane groups: left of the
    /// intersection on lanes 5..=7, right of it on lanes 8..=10, above it on columns
    /// 8..=10, below it on columns 5..=7.
    pub fn is_position_out_of_intersection(position: &Position) -> (r: bool)
        ensures
            r == out_of_intersection(*position),
    {
        if position.x <= 4 * LINE_SPACING && 5 * LINE_SPACING <= position.y
            && position.y <= 7 * LINE_SPACING {
            return true;
        }
        if position.x >= 11 * LINE_SPACING && 8 * LINE_SPACING <= position.y
            && position.y <= 10 * LINE_SPACING {
            return true;
        }
        if position.y <= 4 * LINE_SPACING && 8 * LINE_SPACING <= position.x
            && position.x <= 10 * LINE_SPACING {
            return true;
        }
        if position.y >= 11 * LINE_SPACING && 5 * LINE_SPACING <= position.x
            && position.x <= 7 * LINE_SPACING {
            return true;
        }
        false
    }
}

} // verus!
