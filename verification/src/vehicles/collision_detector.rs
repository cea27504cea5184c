use vstd::prelude::*;
use crate::direction::TurnDirection;
use crate::geometry::position::{in_intersection, Position, TimedPosition};
use crate::vehicles::vehicle_data::Vehicle;

verus! {

/// Whether the two vehicles enter from the same side and leave towards the same side.
pub open spec fn same_lane(a: Vehicle, b: Vehicle) -> bool {
    a.initial_position == b.initial_position && a.target_direction == b.target_direction
}

/// Whether `path` holds an entry for tick `time`.
pub open spec fn path_has_time(path: Seq<TimedPosition>, time: u64) -> bool {
    exists|k: int| 0 <= k < path.len() && #[trigger] path[k].time == time
}

/// Whether `other` can get in the way of `me` at tick `time` while `me` stands at
/// `current`: right turns keep to their own lane, vehicles from one side bound for
/// different sides use different lanes, two straight routes from facing sides never
/// cross, outside the intersection only the own lane matters, and `other` must still
/// be on the road at that tick.
pub open spec fn relevant_for_collision(me: Vehicle, other: Vehicle, current: Position, time: u64)
    -> bool {
    let lane = same_lane(me, other);
    if (me.turn_direction == TurnDirection::Right || other.turn_direction == TurnDirection::Right)
        && !lane {
        false
    } else if me.start_direction == other.start_direction && me.target_direction
        != other.target_direction {
        false
    } else if me.turn_direction == TurnDirection::Straight && other.turn_direction
        == TurnDirection::Straight && me.initial_position == other.start_direction {
        false
    } else if !lane && !in_intersection(current) {
        false
    } else {
        path_has_time(other.path@, time)
    }
}

/// Decides which vehicles a path under planning must keep clear of.
pub struct CollisionDetector;

impl CollisionDetector {
    /// Whether `other_vehicle` can get in the way of `self_vehicle` at tick `time`.
    pub fn is_relevant_for_collision(
        self_vehicle: &Vehicle,
        other_vehicle: &Vehicle,
        current_position: &Position,
        time: &u64,
    ) -> (r: bool)
        ensures
            r == relevant_for_collision(*self_vehicle, *other_vehicle, *current_position, *time),
    {
        let same = self_vehicle.initial_position == other_vehicle.initial_position
            && self_vehicle.target_direction == other_vehicle.target_direction;
        if (self_vehicle.turn_direction == TurnDirection::Right || other_vehicle.turn_direction
            == TurnDirection::Right) && !same {
            return false;
        }
        if self_vehicle.start_direction == other_vehicle.start_direction
            && self_vehicle.target_direction != other_vehicle.target_direction {
            return false;
        }
        if self_vehicle.turn_direction == TurnDirection::Straight && other_vehicle.turn_direction
            == TurnDirection::Straight && self_vehicle.initial_position
            == other_vehicle.start_direction {
            return false;
        }
        if !same && !current_position.is_in_intersection() {
            return false;
        }
        let found = index_of_time(&other_vehicle.path, *time);
        found.is_some()
    }
}

/// The first index of `path` whose entry is for tick `time`, if any.
pub fn index_of_time(path: &Vec<TimedPosition>, time: u64) -> (r: Option<usize>)
    ensures
        r matches Some(k) ==> k < path@.len() && path@[k as int].time == time && forall|j: int|
            0 <= j < k ==> path@[j].time != time,
        r is None <==> !path_has_time(path@, time),
{
    let mut k: usize = 0;
    while k < path.len()
        invariant
            k <= path@.len(),
            forall|j: int| 0 <= j < k ==> path@[j].time != time,
        decreases path@.len() - k,
    {
        if path[k].time == time {
            return Some(k);
        }
        k = k + 1;
    }
    None
}

/// Which vehicles are never in the way of a vehicle being planned: one that enters from
/// the same side and leaves toward another side (a different lane), one on another lane
/// when either turns right, two going straight where one enters from the side the other
/// heads to, one on another lane while the planned vehicle is outside the intersection,
/// and one with no entry at the tick checked.
pub proof fn lemma_irrelevant_vehicles(me: Vehicle, other: Vehicle, current: Position, time: u64)
    ensures
        me.start_direction == other.start_direction && me.target_direction != other.target_direction
            ==> !relevant_for_collision(me, other, current, time),
        (me.turn_direction == TurnDirection::Right || other.turn_direction == TurnDirection::Right)
            && !(me.initial_position == other.initial_position && me.target_direction
            == other.target_direction) ==> !relevant_for_collision(me, other, current, time),
        me.turn_direction == TurnDirection::Straight && other.turn_direction
            == TurnDirection::Straight && me.initial_position == other.start_direction
            ==> !relevant_for_collision(me, other, current, time),
        !(me.initial_position == other.initial_position && me.target_direction
            == other.target_direction) && !in_intersection(current) ==> !relevant_for_collision(
            me,
            other,
            current,
            time,
        ),
        relevant_for_collision(me, other, current, time) ==> exists|k: int|
            0 <= k < other.path@.len() && #[trigger] other.path@[k].time == time,
        me.initial_position == other.initial_position && me.target_direction
            == other.target_direction && me.start_direction == other.start_direction && !(
        me.turn_direction == TurnDirection::Straight && other.turn_direction
            == TurnDirection::Straight && me.initial_position == other.start_direction)
            ==> (relevant_for_collision(me, other, current, time) <==> exists|k: int|
            0 <= k < other.path@.len() && #[trigger] other.path@[k].time == time),
{
}

} // verus!
