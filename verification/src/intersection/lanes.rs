use vstd::prelude::*;
use crate::compass::{Direction, Route};
use crate::constants::WINDOW_SIZE;

verus! {

/// Width of one lane of the compass-model road, in pixels.
pub const LANE_WIDTH: i32 = 30;

/// Width of the compass-model road: six lanes.
pub const ROAD_WIDTH: i32 = 180;

/// Where a vehicle stands relative to the intersection in the compass model.
#[derive(Debug, Clone, Copy, PartialEq, Eq, Structural)]
pub enum IntersectionZone {
    Clear,
    Approach,
    Entry,
    Core,
    Turning,
}

/// A lane of the compass model: its heading and its index across the road. The drawn
/// geometry of the lane is kept by the caller.
#[derive(Debug, Clone, Copy, PartialEq, Eq, Structural)]
pub struct LaneGeometry {
    pub direction: Direction,
    pub lane_index: usize,
}

impl LaneGeometry {
    /// The color the lane is drawn in: red for the left-turn lane, blue for the straight
    /// one, green for the right-turn one, gray for any other.
    pub fn get_lane_color(&self) -> (r: (u8, u8, u8))
        ensures
            r == match self.lane_index {
                0 => (255u8, 100u8, 100u8),
                1 => (100u8, 100u8, 255u8),
                2 => (100u8, 255u8, 100u8),
                _ => (128u8, 128u8, 128u8),
            },
    {
        match self.lane_index {
            0 => (255, 100, 100),
            1 => (100, 100, 255),
            2 => (100, 255, 100),
            _ => (128, 128, 128),
        }
    }

    /// The route the lane serves: lanes 0, 1 and 2 turn left, go straight and turn
    /// right; any other lane goes straight.
    pub fn get_route_type(&self) -> (r: Route)
        ensures
            r == match self.lane_index {
                0 => Route::Left,
                2 => Route::Right,
                _ => Route::Straight,
            },
    {
        match self.lane_index {
            0 => Route::Left,
            1 => Route::Straight,
            2 => Route::Right,
            _ => Route::Straight,
        }
    }
}

/// The center of the window, where the two roads cross.
pub open spec fn window_center() -> int {
    (WINDOW_SIZE / 2) as int
}

/// The point where lane `lane` of heading `d` crosses the center line of the other
/// road: half a lane off the window's center, plus one lane width per lane index.
pub open spec fn lane_center(d: Direction, lane: int) -> (int, int) {
    let c = window_center();
    match d {
        Direction::North => (c + 15 + lane * LANE_WIDTH, c),
        Direction::South => (c - 15 - lane * LANE_WIDTH, c),
        Direction::East => (c, c + 15 + lane * LANE_WIDTH),
        Direction::West => (c, c - 15 - lane * LANE_WIDTH),
    }
}

/// The center point of lane `lane` for heading `direction` (see `lane_center`), in
/// whole pixels, exact for every lane index.
pub fn calculate_lane_center_position(direction: Direction, lane: usize) -> (p: (i128, i128))
    ensures
        p.0 == lane_center(direction, lane as int).0,
        p.1 == lane_center(direction, lane as int).1,
{
    let c: i128 = (WINDOW_SIZE / 2) as i128;
    assert(lane * LANE_WIDTH <= 0x1_0000_0000_0000_0000 * 30) by (nonlinear_arith)
        requires
            lane <= 0xffff_ffff_ffff_ffff,
            LANE_WIDTH == 30,
    ;
    let offset: i128 = 15 + (lane as i128) * (LANE_WIDTH as i128);
    match direction {
        Direction::North => (c + offset, c),
        Direction::South => (c - offset, c),
        Direction::East => (c, c + offset),
        Direction::West => (c, c - offset),
    }
}

/// Whether six lanes make up exactly the road's width.
pub fn validate_intersection_geometry() -> (r: bool)
    ensures
        r == (6 * LANE_WIDTH == ROAD_WIDTH),
{
    let total_lanes: i32 = 6;
    total_lanes * LANE_WIDTH == ROAD_WIDTH
}

} // verus!
