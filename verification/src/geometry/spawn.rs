use vstd::prelude::*;
use crate::constants::{LINE_SPACING, WINDOW_SIZE};
use crate::direction::Direction;
use crate::geometry::position::{can_move, moved, Position};
use crate::geometry::rect_extensions::spec_in_bounds;
use crate::direction::spec_opposite;
use crate::constants::VEHICLE_SIZE;

verus! {

/// The lane, in lane widths, on which a vehicle entering from side `initial` towards
/// `target` spawns: each side has three incoming lanes, one per route.
pub open spec fn spawn_lane(initial: Direction, target: Direction) -> int {
    match (initial, target) {
        (Direction::Up, Direction::Right) => 7,
        (Direction::Up, Direction::Down) => 6,
        (Direction::Up, _) => 5,
        (Direction::Left, Direction::Right) => 9,
        (Direction::Left, Direction::Up) => 8,
        (Direction::Left, _) => 10,
        (Direction::Down, Direction::Right) => 10,
        (Direction::Down, Direction::Up) => 9,
        (Direction::Down, _) => 8,
        (Direction::Right, Direction::Up) => 5,
        (Direction::Right, Direction::Left) => 6,
        (Direction::Right, _) => 7,
    }
}

/// Spawn position: one vehicle length outside the window on the entry side (or on the
/// window's far edge for the bottom and right sides), on the lane of the route.
pub open spec fn spec_spawn_position(initial: Direction, target: Direction) -> Position {
    let lane = (spawn_lane(initial, target) * LINE_SPACING) as i32;
    match initial {
        Direction::Up => Position { x: lane, y: (-LINE_SPACING) as i32 },
        Direction::Left => Position { x: (-LINE_SPACING) as i32, y: lane },
        Direction::Down => Position { x: lane, y: WINDOW_SIZE as i32 },
        Direction::Right => Position { x: WINDOW_SIZE as i32, y: lane },
    }
}

/// The spawn position of a vehicle entering from `initial_position` towards
/// `target_direction`; a vehicle cannot leave on its own entry side.
pub fn get_spawn_position(initial_position: Direction, target_direction: Direction) -> (r:
    Position)
    requires
        initial_position != target_direction,
    ensures
        r == spec_spawn_position(initial_position, target_direction),
{
    match initial_position {
        Direction::Up => {
            let lane = match target_direction {
                Direction::Right => 7 * LINE_SPACING,
                Direction::Down => 6 * LINE_SPACING,
                _ => 5 * LINE_SPACING,
            };
            Position { x: lane, y: (-LINE_SPACING) as i32 }
        },
        Direction::Left => {
            let lane = match target_direction {
                Direction::Right => 9 * LINE_SPACING,
                Direction::Up => 8 * LINE_SPACING,
                _ => 10 * LINE_SPACING,
            };
            Position { x: (-LINE_SPACING) as i32, y: lane }
        },
        Direction::Down => {
            let lane = match target_direction {
                Direction::Right => 10 * LINE_SPACING,
                Direction::Up => 9 * LINE_SPACING,
                _ => 8 * LINE_SPACING,
            };
            Position { x: lane, y: WINDOW_SIZE as i32 }
        },
        Direction::Right => {
            let lane = match target_direction {
                Direction::Up => 5 * LINE_SPACING,
                Direction::Left => 6 * LINE_SPACING,
                _ => 7 * LINE_SPACING,
            };
            Position { x: WINDOW_SIZE as i32, y: lane }
        },
    }
}

/// A vehicle spawns just outside the window, and one pixel of travel away from its entry
/// side brings it into view.
pub proof fn lemma_spawn_outside_window(initial: Direction, target: Direction)
    requires
        initial != target,
    ensures
        !spec_in_bounds(
            spec_spawn_position(initial, target).x as int,
            spec_spawn_position(initial, target).y as int,
            VEHICLE_SIZE as int,
            WINDOW_SIZE as int,
        ),
        can_move(spec_spawn_position(initial, target), spec_opposite(initial), 1),
        ({
            let p = moved(spec_spawn_position(initial, target), spec_opposite(initial), 1);
            spec_in_bounds(p.x as int, p.y as int, VEHICLE_SIZE as int, WINDOW_SIZE as int)
        }),
{
}

} // verus!
