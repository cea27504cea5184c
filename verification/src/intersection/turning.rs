use vstd::prelude::*;
use crate::constants::LINE_SPACING;
use crate::direction::{spec_opposite, Direction};

verus! {

/// The line on which a vehicle entering from `initial` towards `target` turns: a column
/// for vehicles that travel horizontally first, a row for those that travel vertically
/// first, and neither for a straight route.
pub open spec fn spec_turning_position(initial: Direction, target: Direction) -> (
    Option<i32>,
    Option<i32>,
) {
    if target == spec_opposite(initial) {
        (None, None)
    } else {
        match (initial, target) {
            (Direction::Up, Direction::Right) => (None, Some((8 * LINE_SPACING) as i32)),
            (Direction::Up, Direction::Left) => (None, Some((5 * LINE_SPACING) as i32)),
            (Direction::Left, Direction::Up) => (Some((8 * LINE_SPACING) as i32), None),
            (Direction::Left, Direction::Down) => (Some((5 * LINE_SPACING) as i32), None),
            (Direction::Down, Direction::Left) => (None, Some((7 * LINE_SPACING) as i32)),
            (Direction::Down, Direction::Right) => (None, Some((10 * LINE_SPACING) as i32)),
            (Direction::Right, Direction::Down) => (Some((7 * LINE_SPACING) as i32), None),
            (Direction::Right, Direction::Up) => (Some((10 * LINE_SPACING) as i32), None),
            _ => (None, None),
        }
    }
}

/// The turning line of the route from `initial_position` towards `target_direction`.
pub fn get_turning_position(initial_position: Direction, target_direction: Direction) -> (r: (
    Option<i32>,
    Option<i32>,
))
    ensures
        r == spec_turning_position(initial_position, target_direction),
{
    if target_direction == initial_position.opposite() {
        return (None, None);
    }
    match initial_position {
        Direction::Up => match target_direction {
            Direction::Right => (None, Some(8 * LINE_SPACING)),
            Direction::Left => (None, Some(5 * LINE_SPACING)),
            _ => (None, None),
        },
        Direction::Left => match target_direction {
            Direction::Up => (Some(8 * LINE_SPACING), None),
            Direction::Down => (Some(5 * LINE_SPACING), None),
            _ => (None, None),
        },
        Direction::Down => match target_direction {
            Direction::Left => (None, Some(7 * LINE_SPACING)),
            Direction::Right => (None, Some(10 * LINE_SPACING)),
            _ => (None, None),
        },
        Direction::Right => match target_direction {
            Direction::Down => (Some(7 * LINE_SPACING), None),
            Direction::Up => (Some(10 * LINE_SPACING), None),
            _ => (None, None),
        },
    }
}

/// A route between two different sides has no turning line exactly when it goes
/// straight across, and otherwise turns on a column or on a row, never both.
pub proof fn lemma_turn_iff_not_straight(initial: Direction, target: Direction)
    requires
        initial != target,
    ensures
        (spec_turning_position(initial, target) == (None::<i32>, None::<i32>)) <==> (target
            == spec_opposite(initial)),
        target != spec_opposite(initial) ==> (spec_turning_position(initial, target).0 is Some
            != spec_turning_position(initial, target).1 is Some),
{
}

} // verus!
