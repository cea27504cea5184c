use vstd::prelude::*;
use crate::constants::{INTERSECTION_MAX, INTERSECTION_MIN, LINE_SPACING, VEHICLE_SIZE};
use crate::direction::{spec_opposite, Direction};

verus! {

/// A point of the window, in pixels: the top-left corner of a vehicle.
#[derive(Debug, Clone, Copy, PartialEq, Eq, Structural)]
pub struct Position {
    pub x: i32,
    pub y: i32,
}

/// A position that a vehicle holds at a given tick of the simulation.
#[derive(Debug, Clone, Copy, PartialEq, Eq, Structural)]
pub struct TimedPosition {
    pub position: Position,
    pub time: u64,
}

/// Horizontal and vertical unit offsets of a step in `d` (the y axis points down).
pub open spec fn dir_dx(d: Direction) -> int {
    match d {
        Direction::Left => -1,
        Direction::Right => 1,
        _ => 0,
    }
}

pub open spec fn dir_dy(d: Direction) -> int {
    match d {
        Direction::Up => -1,
        Direction::Down => 1,
        _ => 0,
    }
}

/// Whether moving `p` by `speed` in `d` stays within the range of `i32`.
pub open spec fn can_move(p: Position, d: Direction, speed: i32) -> bool {
    let nx = p.x + dir_dx(d) * speed;
    let ny = p.y + dir_dy(d) * speed;
    i32::MIN <= nx <= i32::MAX && i32::MIN <= ny <= i32::MAX
}

/// `p` moved by `speed` pixels in direction `d`.
pub open spec fn moved(p: Position, d: Direction, speed: int) -> Position {
    Position {
        x: (p.x + dir_dx(d) * speed) as i32,
        y: (p.y + dir_dy(d) * speed) as i32,
    }
}

/// Rust's integer division, which rounds toward zero, for a positive divisor.
pub open spec fn div_toward_zero(a: int, b: int) -> int {
    if a >= 0 {
        a / b
    } else {
        -((-a) / b)
    }
}

pub open spec fn abs_int(v: int) -> int {
    if v < 0 { -v } else { v }
}

/// Manhattan distance between two positions.
pub open spec fn manhattan(a: Position, b: Position) -> int {
    abs_int(a.x - b.x) + abs_int(a.y - b.y)
}

/// Whether a vehicle-sized square whose corner is `p` overlaps the intersection square.
pub open spec fn in_intersection(p: Position) -> bool {
    &&& p.x < INTERSECTION_MAX
    &&& p.x + VEHICLE_SIZE > INTERSECTION_MIN
    &&& p.y < INTERSECTION_MAX
    &&& p.y + VEHICLE_SIZE > INTERSECTION_MIN
}

/// Whether `v` lies in the closed range `[lo, hi]` of lane indices times the lane width.
pub open spec fn in_lanes(v: int, lo: int, hi: int) -> bool {
    lo * LINE_SPACING <= v <= hi * LINE_SPACING
}

/// Whether `p` lies on one of the four outgoing lane groups past the intersection.
pub open spec fn out_of_intersection(p: Position) -> bool {
    ||| p.x <= 4 * LINE_SPACING && in_lanes(p.y as int, 5, 7)
    ||| p.x >= 11 * LINE_SPACING && in_lanes(p.y as int, 8, 10)
    ||| p.y <= 4 * LINE_SPACING && in_lanes(p.x as int, 8, 10)
    ||| p.y >= 11 * LINE_SPACING && in_lanes(p.x as int, 5, 7)
}

/// Whether `p` lies on the turning line given by `turn` (a column, a row, or neither).
pub open spec fn after_turn(p: Position, turn: (Option<i32>, Option<i32>)) -> bool {
    ||| (turn.0 matches Some(tx) && p.x == tx)
    ||| (turn.1 matches Some(ty) && p.y == ty)
}

impl Position {
    /// The position `speed` pixels away in `direction`.
    pub fn move_in_direction(&self, direction: &Direction, speed: i32) -> (r: Position)
        requires
            can_move(*self, *direction, speed),
        ensures
            r == moved(*self, *direction, speed as int),
    {
        let mut new_position = *self;
        match direction {
            Direction::Down => new_position.y = new_position.y + speed,
            Direction::Up => new_position.y = new_position.y - speed,
            Direction::Left => new_position.x = new_position.x - speed,
            Direction::Right => new_position.x = new_position.x + speed,
        }
        new_position
    }

    /// Whether the position lies on the turning column or row.
    pub fn is_after_turn(&self, turn_position: &(Option<i32>, Option<i32>)) -> (r: bool)
        ensures
            r == after_turn(*self, *turn_position),
    {
        if let Some(turn_x) = turn_position.0 {
            if self.x == turn_x {
                return true;
            }
        }
        if let Some(turn_y) = turn_position.1 {
            if self.y == turn_y {
                return true;
            }
        }
        false
    }

    /// Whether a vehicle at this position overlaps the intersection square.
    pub fn is_in_intersection(&self) -> (r: bool)
        ensures
            r == in_intersection(*self),
    {
        crate::intersection::IntersectionBounds::is_position_in_intersection(self)
    }

    /// Number of one-pixel steps between the two positions (Manhattan distance).
    pub fn calculate_steps_to(&self, new_position: &Position) -> (r: u64)
        ensures
            r == manhattan(*self, *new_position),
    {
        let dx: i64 = self.x as i64 - new_position.x as i64;
        let dy: i64 = self.y as i64 - new_position.y as i64;
        let ax: i64 = if dx < 0 { -dx } else { dx };
        let ay: i64 = if dy < 0 { -dy } else { dy };
        (ax + ay) as u64
    }

    /// Whether the position lies on one of the outgoing lanes past the intersection.
    pub fn is_out_of_intersection(&self) -> (r: bool)
        ensures
            r == out_of_intersection(*self),
    {
        crate::intersection::IntersectionBounds::is_position_out_of_intersection(self)
    }
}

/// A move followed by a move of the same length in the opposite direction comes back
/// to where it started.
pub proof fn lemma_move_then_back(p: Position, d: Direction, speed: i32)
    requires
        can_move(p, d, speed),
    ensures
        can_move(moved(p, d, speed as int), spec_opposite(d), speed),
        moved(moved(p, d, speed as int), spec_opposite(d), speed as int) == p,
{
}

/// The step count between two positions is a distance: symmetric, zero exactly between
/// equal positions, and equal to the length of a single straight move.
pub proof fn lemma_steps_distance(a: Position, b: Position, d: Direction, speed: i32)
    requires
        can_move(a, d, speed),
    ensures
        manhattan(a, b) == manhattan(b, a),
        manhattan(a, b) >= 0,
        manhattan(a, b) == 0 <==> a == b,
        manhattan(a, moved(a, d, speed as int)) == abs_int(speed as int),
{
}

} // verus!
