use vstd::prelude::*;
use crate::geometry::position::{after_turn, Position};
use crate::random::random_below;

verus! {

/// A side of the intersection, or a direction of travel on the screen.
#[derive(Debug, Copy, Clone, PartialEq, Eq, Hash, Structural)]
pub enum Direction {
    Up,
    Down,
    Left,
    Right,
}

/// How a route bends, seen from the driver.
#[derive(Debug, Copy, Clone, PartialEq, Eq, Hash, Structural)]
pub enum TurnDirection {
    Left,
    Right,
    Straight,
}

pub open spec fn spec_opposite(d: Direction) -> Direction {
    match d {
        Direction::Up => Direction::Down,
        Direction::Down => Direction::Up,
        Direction::Left => Direction::Right,
        Direction::Right => Direction::Left,
    }
}

/// The order in which a draw of `0..4` names the sides.
pub open spec fn direction_of_index(i: int) -> Direction {
    if i == 0 {
        Direction::Up
    } else if i == 1 {
        Direction::Left
    } else if i == 2 {
        Direction::Down
    } else {
        Direction::Right
    }
}

pub open spec fn index_of_direction(d: Direction) -> int {
    match d {
        Direction::Up => 0,
        Direction::Left => 1,
        Direction::Down => 2,
        Direction::Right => 3,
    }
}

/// The side picked by `index` among the sides other than `exclude`, in the order
/// Up, Left, Down, Right; with no side excluded, among all four.
pub open spec fn picked_direction(exclude: Option<Direction>, index: int) -> Direction {
    match exclude {
        None => direction_of_index(index),
        Some(e) => if index < index_of_direction(e) {
            direction_of_index(index)
        } else {
            direction_of_index(index + 1)
        },
    }
}

/// The direction of travel after a step ends at `position`: the target direction once
/// the vehicle stands on its turning line, the current one otherwise.
pub open spec fn updated_direction(
    current: Direction,
    target: Direction,
    position: Position,
    turn: (Option<i32>, Option<i32>),
) -> Direction {
    if after_turn(position, turn) {
        target
    } else {
        current
    }
}

/// The turn made by a vehicle that enters from side `initial` and leaves towards `target`.
pub open spec fn spec_turn_direction(initial: Direction, target: Direction) -> TurnDirection {
    match (initial, target) {
        (Direction::Up, Direction::Left)
        | (Direction::Left, Direction::Down)
        | (Direction::Down, Direction::Right)
        | (Direction::Right, Direction::Up) => TurnDirection::Right,
        (Direction::Up, Direction::Right)
        | (Direction::Right, Direction::Down)
        | (Direction::Down, Direction::Left)
        | (Direction::Left, Direction::Up) => TurnDirection::Left,
        _ => TurnDirection::Straight,
    }
}

impl Direction {
    /// A side drawn at random among those other than `exclude`, each equally likely.
    pub fn new(exclude: Option<Direction>) -> (r: Direction)
        ensures
            exclude matches Some(e) ==> r != e,
    {
        let count: u32 = if exclude.is_some() { 3 } else { 4 };
        let index = random_below(count);
        Direction::pick(exclude, index)
    }

    /// The side named by a draw `index` among the sides other than `exclude`, in the
    /// order Up, Left, Down, Right.
    pub fn pick(exclude: Option<Direction>, index: u32) -> (r: Direction)
        requires
            exclude is Some ==> index < 3,
            exclude is None ==> index < 4,
        ensures
            r == picked_direction(exclude, index as int),
            exclude matches Some(e) ==> r != e,
    {
        let skip: u32 = match exclude {
            None => 4,
            Some(Direction::Up) => 0,
            Some(Direction::Left) => 1,
            Some(Direction::Down) => 2,
            Some(Direction::Right) => 3,
        };
        let i = if index < skip { index } else { index + 1 };
        if i == 0 {
            Direction::Up
        } else if i == 1 {
            Direction::Left
        } else if i == 2 {
            Direction::Down
        } else {
            Direction::Right
        }
    }

    /// The side facing this one.
    pub fn opposite(&self) -> (r: Direction)
        ensures
            r == spec_opposite(*self),
    {
        match self {
            Direction::Up => Direction::Down,
            Direction::Down => Direction::Up,
            Direction::Left => Direction::Right,
            Direction::Right => Direction::Left,
        }
    }

    /// Switches to `target_direction` once `position` lies on the turning line.
    pub fn update_direction(
        &mut self,
        target_direction: &Direction,
        position: &Position,
        turn_position: &(Option<i32>, Option<i32>),
    )
        ensures
            *final(self) == updated_direction(*old(self), *target_direction, *position,
                *turn_position),
    {
        if let Some(turn_x) = turn_position.0 {
            if *self != *target_direction && position.x == turn_x {
                *self = *target_direction;
            }
        }
        if let Some(turn_y) = turn_position.1 {
            if *self != *target_direction && position.y == turn_y {
                *self = *target_direction;
            }
        }
    }

    /// The turn made by a vehicle entering from `initial_position` towards `target`;
    /// a U-turn back to the entry side counts as straight.
    pub fn turn_direction(initial_position: Direction, target: Direction) -> (r: TurnDirection)
        ensures
            r == spec_turn_direction(initial_position, target),
    {
        match (initial_position, target) {
            (Direction::Up, Direction::Left)
            | (Direction::Left, Direction::Down)
            | (Direction::Down, Direction::Right)
            | (Direction::Right, Direction::Up) => TurnDirection::Right,
            (Direction::Up, Direction::Right)
            | (Direction::Right, Direction::Down)
            | (Direction::Down, Direction::Left)
            | (Direction::Left, Direction::Up) => TurnDirection::Left,
            _ => TurnDirection::Straight,
        }
    }
}

/// Facing sides come in pairs: the opposite of the opposite is the side itself,
/// and no side faces itself.
pub proof fn lemma_opposite_involution(d: Direction)
    ensures
        spec_opposite(spec_opposite(d)) == d,
        spec_opposite(d) != d,
{
}

/// Driving on or making a U-turn is straight; a turn one way seen from one side is
/// the other turn seen from the other side.
pub proof fn lemma_turn_direction_symmetry(a: Direction, b: Direction)
    ensures
        spec_turn_direction(a, a) == TurnDirection::Straight,
        spec_turn_direction(a, spec_opposite(a)) == TurnDirection::Straight,
        spec_turn_direction(a, b) == TurnDirection::Right <==> spec_turn_direction(b, a)
            == TurnDirection::Left,
{
}

/// Every side other than an excluded one is the pick of exactly one draw.
pub proof fn lemma_pick_covers(exclude: Option<Direction>, d: Direction)
    requires
        exclude matches Some(e) ==> d != e,
    ensures
        exists|i: int|
            0 <= i < (if exclude is Some { 3int } else { 4int }) && #[trigger] picked_direction(
                exclude,
                i,
            ) == d,
{
    let k = index_of_direction(d);
    match exclude {
        None => {
            assert(picked_direction(exclude, k) == d);
        },
        Some(e) => {
            if k < index_of_direction(e) {
                assert(picked_direction(exclude, k) == d);
            } else {
                assert(picked_direction(exclude, k - 1) == d);
            }
        },
    }
}

} // verus!
