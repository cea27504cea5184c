use vstd::prelude::*;
use crate::random::random_below;

verus! {

/// Heading of a vehicle in the block-grid model, named by the compass (north is up).
#[derive(Debug, Copy, Clone, PartialEq, Eq, Hash, Structural)]
pub enum Direction {
    North,
    South,
    East,
    West,
}

/// Route of a vehicle through the intersection in the block-grid model.
#[derive(Debug, Copy, Clone, PartialEq, Eq, Hash, Structural)]
pub enum Route {
    Left,
    Straight,
    Right,
}

/// The heading named by a draw of `0..4`: North, South, East, West.
pub open spec fn heading_of_index(i: int) -> Direction {
    if i == 0 {
        Direction::North
    } else if i == 1 {
        Direction::South
    } else if i == 2 {
        Direction::East
    } else {
        Direction::West
    }
}

/// The route named by a draw of `0..3`: Left, Straight, Right.
pub open spec fn route_of_index(i: int) -> Route {
    if i == 0 {
        Route::Left
    } else if i == 1 {
        Route::Straight
    } else {
        Route::Right
    }
}

/// The heading named by `index`, in the order North, South, East, West.
pub fn heading_from_index(index: u32) -> (d: Direction)
    requires
        index < 4,
    ensures
        d == heading_of_index(index as int),
{
    if index == 0 {
        Direction::North
    } else if index == 1 {
        Direction::South
    } else if index == 2 {
        Direction::East
    } else {
        Direction::West
    }
}

/// The route named by `index`, in the order Left, Straight, Right.
pub fn route_from_index(index: u32) -> (r: Route)
    requires
        index < 3,
    ensures
        r == route_of_index(index as int),
{
    if index == 0 {
        Route::Left
    } else if index == 1 {
        Route::Straight
    } else {
        Route::Right
    }
}

/// A heading drawn at random, each equally likely.
pub fn random_heading() -> Direction {
    heading_from_index(random_below(4))
}

/// A route drawn at random, each equally likely.
pub fn random_route() -> Route {
    route_from_index(random_below(3))
}

} // verus!
