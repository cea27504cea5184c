use vstd::prelude::*;
use crate::constants::WINDOW_SIZE;
use crate::direction::{updated_direction, Direction};
use crate::geometry::position::{
    can_move, in_intersection, moved, out_of_intersection, Position, TimedPosition,
};
use crate::geometry::rect::{
    clamped_position, clamped_size, intervals_overlap, Rect, MAX_INT_VALUE, MIN_INT_VALUE,
};
use crate::geometry::rect_extensions::{spec_in_bounds, RectExtensions};
use crate::vehicles::collision_detector::{
    index_of_time, relevant_for_collision, same_lane, CollisionDetector,
};
use crate::vehicles::collision_resolver::{
    collides_at, heading_at, lemma_current_not_clear, resolve_outcome, resolved_path,
    CollisionResolver, ResolveError,
};
use crate::vehicles::vehicle_data::Vehicle;

verus! {

/// Upper bound on the checks made while planning one path; planning gives up beyond it.
pub const MAX_PLANNING_STEPS: u64 = 0x100_0000_0000;

/// Why no path could be planned.
#[derive(Debug, Clone, Copy, PartialEq, Eq, Structural)]
pub enum PathError {
    /// Planning took more than `MAX_PLANNING_STEPS` checks.
    StepLimit,
    /// A tick would pass `u64::MAX`.
    TimeOverflow,
    /// A collision could not be resolved.
    Resolve(ResolveError),
}

/// Tick of the first entry of a new path: that of the first entry of the first vehicle
/// on the road, or 1 when there is none.
pub open spec fn start_time(others: Seq<Vehicle>) -> u64 {
    if others.len() == 0 || others[0].path@.len() == 0 {
        1
    } else {
        others[0].path@[0].time
    }
}

/// Whether a vehicle of width `w` with its corner at `p` still shows in the window.
pub open spec fn shows_at(w: int, p: Position) -> bool {
    spec_in_bounds(clamped_position(p.x), clamped_position(p.y), w as i32 as int,
        WINDOW_SIZE as i32 as int)
}

/// A vehicle that still shows in the window can move by 2 or 3 pixels in any direction
/// without leaving the range of `i32`.
proof fn lemma_shown_can_move(w: int, p: Position, d: Direction, speed: i32)
    requires
        1 <= w <= 0x3fff_ffff,
        shows_at(w, p),
        speed == 2 || speed == 3,
    ensures
        can_move(p, d, speed),
{
    assert(w as i32 as int == w);
    assert(MIN_INT_VALUE <= p.x <= MAX_INT_VALUE);
    assert(MIN_INT_VALUE <= p.y <= MAX_INT_VALUE);
}

/// Position, heading and speed of a vehicle driving on an empty road.
pub struct FreeState {
    pub position: Position,
    pub direction: Direction,
    pub speed: i32,
}

/// One tick on an empty road: turn on the turning line, move by the speed, and speed up
/// to 3 pixels a tick once on an outgoing lane.
pub open spec fn free_step(s: FreeState, target: Direction, turn: (Option<i32>, Option<i32>))
    -> FreeState {
    let d = updated_direction(s.direction, target, s.position, turn);
    let p = moved(s.position, d, s.speed as int);
    FreeState { position: p, direction: d, speed: if out_of_intersection(p) { 3 } else { s.speed } }
}

/// The state `n` ticks after entering of a vehicle alone on the road, entering at `start`
/// heading `start_direction` and bound for `target` with turning line `turn`: it starts
/// two pixels inside its spawn position at 2 pixels a tick.
pub open spec fn free_state(
    start_direction: Direction,
    target: Direction,
    turn: (Option<i32>, Option<i32>),
    start: Position,
    n: nat,
) -> FreeState
    decreases n,
{
    if n == 0 {
        FreeState { position: moved(start, start_direction, 2), direction: start_direction, speed: 2 }
    } else {
        free_step(free_state(start_direction, target, turn, start, (n - 1) as nat), target, turn)
    }
}

/// `free_state` for the route of `v`.
#[verifier::inline]
pub open spec fn free_state_of(v: Vehicle, start: Position, n: nat) -> FreeState {
    free_state(v.start_direction, v.target_direction, v.turn_position, start, n)
}

/// The path of a vehicle alone on the road: the states that follow one another, up to the
/// first one that no longer shows in the window.
pub open spec fn free_route_path(
    w: int,
    start_direction: Direction,
    target: Direction,
    turn: (Option<i32>, Option<i32>),
    start: Position,
    path: Seq<TimedPosition>,
) -> bool {
    &&& forall|i: int|
        0 <= i < path.len() ==> #[trigger] path[i].position == free_state(start_direction,
            target, turn, start, (i + 1) as nat).position
    &&& forall|i: int|
        0 <= i < path.len() ==> shows_at(
            w,
            #[trigger] free_state(start_direction, target, turn, start, i as nat).position,
        )
    &&& !shows_at(w, free_state(start_direction, target, turn, start, path.len()).position)
}

/// While planning on an empty road: the path so far is the free path, and the current
/// position, heading and speed are those of the state after it.
pub open spec fn tracks_free_path(
    v: Vehicle,
    start: Position,
    path: Seq<TimedPosition>,
    position: Position,
    direction: Direction,
    speed: i32,
) -> bool {
    let s = free_state_of(v, start, path.len());
    &&& s.position == position
    &&& s.direction == direction
    &&& s.speed == speed
    &&& forall|i: int|
        0 <= i < path.len() ==> #[trigger] path[i].position == free_state_of(v, start, (i + 1) as nat).position
    &&& forall|i: int|
        0 <= i < path.len() ==> shows_at(v.rect.spec_width(), #[trigger] free_state_of(v, start, i as nat).position)
}

/// What holds of every planned path of a vehicle of width `w` on the given route: one
/// entry per tick from the start tick on, the last entry (or the first step, for an empty
/// path) off screen, and on an empty road the free path.
pub open spec fn planned_route_path(
    w: int,
    start_direction: Direction,
    target: Direction,
    turn: (Option<i32>, Option<i32>),
    start: Position,
    others: Seq<Vehicle>,
    path: Seq<TimedPosition>,
) -> bool {
    &&& forall|i: int| 0 <= i < path.len() ==> #[trigger] path[i].time == start_time(others) + i
    &&& path.len() > 0 ==> !shows_at(w, path.last().position)
    &&& path.len() == 0 ==> !shows_at(w, moved(start, start_direction, 2))
    &&& others.len() == 0 ==> free_route_path(w, start_direction, target, turn, start, path)
}

/// `planned_route_path` for the size and route of `v`.
pub open spec fn planned_path(
    v: Vehicle,
    start: Position,
    others: Seq<Vehicle>,
    path: Seq<TimedPosition>,
) -> bool {
    planned_route_path(v.rect.spec_width(), v.start_direction, v.target_direction,
        v.turn_position, start, others, path)
}

/// How far `p` lies along heading `d`: the coordinate that a move in `d` increases.
pub open spec fn progress(p: Position, d: Direction) -> int {
    match d {
        Direction::Down => p.y as int,
        Direction::Up => -p.y,
        Direction::Right => p.x as int,
        Direction::Left => -p.x,
    }
}

/// A measure that grows by at least 2 with every tick of a vehicle alone on the road: its
/// progress along its first heading, then, once it has turned, `2 * c` more than its
/// progress along its exit heading.
pub open spec fn free_measure(s: FreeState, start_direction: Direction, c: int) -> int {
    if s.direction == start_direction {
        progress(s.position, start_direction)
    } else {
        2 * c + progress(s.position, s.direction)
    }
}

/// A vehicle alone on the road heads first its start heading, then its exit heading, and
/// drives at 2 or 3 pixels a tick.
proof fn lemma_free_state_shape(
    start_direction: Direction,
    target: Direction,
    turn: (Option<i32>, Option<i32>),
    start: Position,
    n: nat,
)
    ensures
        ({
            let s = free_state(start_direction, target, turn, start, n);
            &&& s.direction == start_direction || s.direction == target
            &&& s.speed == 2 || s.speed == 3
        }),
    decreases n,
{
    if n > 0 {
        lemma_free_state_shape(start_direction, target, turn, start, (n - 1) as nat);
    }
}

/// While a vehicle of width `w` shows in the window, each tick alone on the road raises
/// its measure by at least 2.
proof fn lemma_free_step_progress(
    w: int,
    start_direction: Direction,
    target: Direction,
    turn: (Option<i32>, Option<i32>),
    start: Position,
    n: nat,
)
    requires
        1 <= w <= 0x3fff_ffff,
        shows_at(w, free_state(start_direction, target, turn, start, n).position),
    ensures
        free_measure(free_state(start_direction, target, turn, start, n + 1), start_direction,
            WINDOW_SIZE + w) >= free_measure(free_state(start_direction, target, turn, start, n),
            start_direction, WINDOW_SIZE + w) + 2,
        -(WINDOW_SIZE + w) < free_measure(free_state(start_direction, target, turn, start, n),
            start_direction, WINDOW_SIZE + w) < 3 * (WINDOW_SIZE + w),
{
    lemma_free_state_shape(start_direction, target, turn, start, n);
    let s = free_state(start_direction, target, turn, start, n);
    let p = s.position;
    assert(-w < p.x < WINDOW_SIZE && -w < p.y < WINDOW_SIZE);
}

/// While a vehicle of width `w` alone on the road shows in the window, its measure after
/// `n` ticks is at least `2 * n` above the first.
proof fn lemma_free_measure_grows(
    w: int,
    start_direction: Direction,
    target: Direction,
    turn: (Option<i32>, Option<i32>),
    start: Position,
    n: nat,
)
    requires
        1 <= w <= 0x3fff_ffff,
        forall|i: nat| i < n ==> shows_at(w, #[trigger] free_state(start_direction, target, turn, start, i).position),
    ensures
        free_measure(free_state(start_direction, target, turn, start, n), start_direction, WINDOW_SIZE + w)
            >= free_measure(free_state(start_direction, target, turn, start, 0), start_direction,
            WINDOW_SIZE + w) + 2 * n,
    decreases n,
{
    if n > 0 {
        lemma_free_measure_grows(w, start_direction, target, turn, start, (n - 1) as nat);
        assert(shows_at(w, free_state(start_direction, target, turn, start, (n - 1) as nat).position));
        lemma_free_step_progress(w, start_direction, target, turn, start, (n - 1) as nat);
    }
}

/// A vehicle of width `w` alone on the road shows in the window for fewer than
/// `2 * (WINDOW_SIZE + w)` ticks.
proof fn lemma_free_path_short(
    w: int,
    start_direction: Direction,
    target: Direction,
    turn: (Option<i32>, Option<i32>),
    start: Position,
    n: nat,
)
    requires
        1 <= w <= 0x3fff_ffff,
        forall|i: nat| i <= n ==> shows_at(w, #[trigger] free_state(start_direction, target, turn, start, i).position),
    ensures
        n < 2 * (WINDOW_SIZE + w),
{
    lemma_free_measure_grows(w, start_direction, target, turn, start, n);
    assert(shows_at(w, free_state(start_direction, target, turn, start, 0).position));
    lemma_free_step_progress(w, start_direction, target, turn, start, 0);
    assert(shows_at(w, free_state(start_direction, target, turn, start, n).position));
    lemma_free_step_progress(w, start_direction, target, turn, start, n);
}

/// The indices, in order, of the vehicles among the first `n` of `others` that can get in
/// the way of `v` at tick `time` while it stands at `pos`.
pub open spec fn relevant_seq(v: Vehicle, others: Seq<Vehicle>, pos: Position, time: u64, n: int)
    -> Seq<usize>
    decreases n,
{
    if n <= 0 {
        Seq::empty()
    } else if relevant_for_collision(v, others[n - 1], pos, time) {
        relevant_seq(v, others, pos, time, n - 1).push((n - 1) as usize)
    } else {
        relevant_seq(v, others, pos, time, n - 1)
    }
}

proof fn lemma_first_index(path: Seq<TimedPosition>, time: u64, k0: int)
    requires
        0 <= k0 <= path.len(),
    ensures
        (forall|j: int| k0 <= j < path.len() ==> #[trigger] path[j].time != time) ==> first_index_of_time(
            path,
            time,
            k0,
        ) is None,
        forall|k: int|
            k0 <= k < path.len() && path[k].time == time && (forall|j: int|
                k0 <= j < k ==> #[trigger] path[j].time != time) ==> first_index_of_time(path, time, k0)
                == Some(k),
    decreases path.len() - k0,
{
    if k0 < path.len() {
        lemma_first_index(path, time, k0 + 1);
        assert forall|k: int|
            k0 <= k < path.len() && path[k].time == time && (forall|j: int|
                k0 <= j < k ==> #[trigger] path[j].time != time) implies first_index_of_time(path, time, k0)
                == Some(k) by {
            if k > k0 {
                assert(path[k0].time != time);
            }
        }
    }
}

/// Where planning stands: the path so far, the tick being checked, the vehicle's
/// position, heading and speed, and the checks it may still make.
pub struct PlanState {
    pub path: Seq<TimedPosition>,
    pub time: u64,
    pub position: Position,
    pub direction: Direction,
    pub speed: i32,
    pub fuel: u64,
}

/// The first index of `path` with tick `time`, if any.
pub open spec fn first_index_of_time(path: Seq<TimedPosition>, time: u64, k: int) -> Option<int>
    decreases path.len() - k,
{
    if k < 0 || k >= path.len() {
        None
    } else if path[k].time == time {
        Some(k)
    } else {
        first_index_of_time(path, time, k + 1)
    }
}

/// Planning: while the vehicle still shows, it turns on its turning line, moves by its
/// speed, records the new position at the current tick, speeds up to 3 pixels a tick on
/// an outgoing lane, and then checks the ticks of the path from the current one on.
pub open spec fn plan_outer(v: Vehicle, others: Seq<Vehicle>, s: PlanState) -> Result<
    Seq<TimedPosition>,
    PathError,
>
    decreases s.fuel, 0int,
{
    if !shows_at(v.rect.spec_width(), s.position) {
        Ok(s.path)
    } else if s.fuel == 0 {
        Err(PathError::StepLimit)
    } else {
        let d = updated_direction(s.direction, v.target_direction, s.position, v.turn_position);
        let p = moved(s.position, d, s.speed as int);
        let speed: i32 = if out_of_intersection(p) && s.speed != 3 { 3 } else { s.speed };
        plan_ticks(
            v,
            others,
            PlanState {
                path: s.path.push(TimedPosition { position: p, time: s.time }),
                position: p,
                direction: d,
                speed,
                fuel: (s.fuel - 1) as u64,
                ..s
            },
        )
    }
}

/// Checking the ticks up to the path's last one: at each, the vehicles that can get in
/// the way are checked in order of index.
pub open spec fn plan_ticks(v: Vehicle, others: Seq<Vehicle>, s: PlanState) -> Result<
    Seq<TimedPosition>,
    PathError,
>
    decreases s.fuel, 1int,
{
    if !(s.path.len() > 0 && s.time <= s.path.last().time) {
        plan_outer(v, others, s)
    } else if s.fuel == 0 {
        Err(PathError::StepLimit)
    } else {
        plan_checks(
            v,
            others,
            PlanState { fuel: (s.fuel - 1) as u64, ..s },
            relevant_seq(v, others, s.position, s.time, others.len() as int),
            0,
        )
    }
}

/// Checking the vehicles `rel[k..]` at tick `s.time`. A vehicle with an entry at that
/// tick that overlaps the planned one (both in the intersection, or on the same lane)
/// makes it wait one tick if it has not left its first position, and otherwise delays
/// the path (see `resolve_outcome`), after which the checks start over from the tick the
/// delay returns. Once all are checked, the next tick is checked.
pub open spec fn plan_checks(
    v: Vehicle,
    others: Seq<Vehicle>,
    s: PlanState,
    rel: Seq<usize>,
    k: int,
) -> Result<Seq<TimedPosition>, PathError>
    decreases s.fuel, 2int,
{
    if k < 0 || k >= rel.len() {
        if s.time == u64::MAX {
            Err(PathError::TimeOverflow)
        } else {
            plan_ticks(v, others, PlanState { time: (s.time + 1) as u64, ..s })
        }
    } else if s.fuel == 0 {
        Err(PathError::StepLimit)
    } else {
        let s1 = PlanState { fuel: (s.fuel - 1) as u64, ..s };
        let other = others[rel[k] as int];
        match first_index_of_time(other.path@, s.time, 0) {
            None => plan_checks(v, others, s1, rel, k + 1),
            Some(i) => {
                let tp = other.path@[i];
                let lane = same_lane(v, other);
                let ow = other.rect.spec_width();
                let oh = other.rect.spec_height();
                if !in_intersection(tp.position) && !lane {
                    plan_checks(v, others, s1, rel, k + 1)
                } else if !in_intersection(s.position) && !lane {
                    plan_checks(v, others, s1, rel, k + 1)
                } else if !(intervals_overlap(clamped_position(tp.position.x), clamped_size(ow as u32),
                    clamped_position(s.position.x), v.rect.spec_width())
                    && intervals_overlap(clamped_position(tp.position.y), clamped_size(oh as u32),
                    clamped_position(s.position.y), v.rect.spec_height())) {
                    plan_checks(v, others, s1, rel, k + 1)
                } else if s.path.len() == 1 || s.position == s.path[0].position {
                    if s.time == u64::MAX {
                        Err(PathError::TimeOverflow)
                    } else {
                        plan_checks(
                            v,
                            others,
                            PlanState {
                                path: s.path.push(
                                    TimedPosition { position: s.position, time: (s.time + 1) as u64 },
                                ),
                                time: (s.time + 1) as u64,
                                ..s1
                            },
                            rel,
                            k + 1,
                        )
                    }
                } else {
                    let orect = Rect::spec_new(tp.position.x, tp.position.y, ow as u32, oh as u32);
                    match resolve_outcome(v, s.path, s.position, orect) {
                        Err(e) => Err(PathError::Resolve(e)),
                        Ok(t) => {
                            let idx = t - start_time(others);
                            let path = resolved_path(v, s.path, s.position, orect).take(idx + 1);
                            let pos = path[idx].position;
                            plan_checks(
                                v,
                                others,
                                PlanState { path, time: t, position: pos, direction: heading_at(v, pos), ..s1 },
                                rel,
                                0,
                            )
                        },
                    }
                }
            },
        }
    }
}

/// The path planned for `v` from `start` among `others` (see `plan_outer`).
pub open spec fn plan(v: Vehicle, start: Position, others: Seq<Vehicle>) -> Result<
    Seq<TimedPosition>,
    PathError,
> {
    plan_outer(
        v,
        others,
        PlanState {
            path: Seq::empty(),
            time: start_time(others),
            position: moved(start, v.start_direction, 2),
            direction: v.start_direction,
            speed: 2,
            fuel: MAX_PLANNING_STEPS,
        },
    )
}

/// Plans the timed path of a vehicle through the intersection.
pub struct PathCalculator;

impl PathCalculator {
    /// Plans the path of `vehicle` from `start_position`, one entry per tick, until it
    /// leaves the window. At each tick, every vehicle in `all_vehicles` that can get in
    /// the way is checked: if the vehicles would overlap (inside the intersection, or
    /// anywhere on the same lane), the vehicle either waits at its spawn position or the
    /// path is delayed by `CollisionResolver::resolve_collision` and checked again from
    /// the tick it returns.
    #[verifier::rlimit(40)]
    pub fn calculate_path(
        vehicle: &Vehicle,
        start_position: &Position,
        all_vehicles: &Vec<Vehicle>,
    ) -> (r: Result<Vec<TimedPosition>, PathError>)
        requires
            can_move(*start_position, vehicle.start_direction, 2),
        ensures
            r matches Ok(p) ==> planned_path(*vehicle, *start_position, all_vehicles@, p@),
            r matches Ok(p) ==> plan(*vehicle, *start_position, all_vehicles@) == Ok::<
                Seq<TimedPosition>,
                PathError,
            >(p@),
            r matches Err(e) ==> plan(*vehicle, *start_position, all_vehicles@) == Err::<
                Seq<TimedPosition>,
                PathError,
            >(e),
            all_vehicles@.len() == 0 ==> r is Ok,
    {
        let ghost w = vehicle.rect.spec_width();
        let ghost h = vehicle.rect.spec_height();
        let ghost goal = plan(*vehicle, *start_position, all_vehicles@);
        proof {
            use_type_invariant(&vehicle.rect);
        }
        let mut temp_rect = vehicle.rect;
        let mut time: u64 = if all_vehicles.len() == 0 || all_vehicles[0].path.len() == 0 {
            1
        } else {
            all_vehicles[0].path[0].time
        };
        let ghost t0 = time as int;
        let mut speed: i32 = 2;
        let mut current_direction = vehicle.start_direction;
        let mut path: Vec<TimedPosition> = Vec::new();
        let mut current_position = start_position.move_in_direction(&current_direction, speed);
        temp_rect.set_x(current_position.x);
        temp_rect.set_y(current_position.y);
        let mut fuel: u64 = MAX_PLANNING_STEPS;
        while temp_rect.is_in_bounds(WINDOW_SIZE)
            invariant
                w == vehicle.rect.spec_width(),
                1 <= w <= 0x3fff_ffff,
                t0 == start_time(all_vehicles@),
                time == t0 + path@.len(),
                forall|i: int| 0 <= i < path@.len() ==> #[trigger] path@[i].time == t0 + i,
                path@.len() > 0 ==> current_position == path@.last().position,
                path@.len() == 0 ==> current_position == moved(*start_position,
                    vehicle.start_direction, 2),
                temp_rect.left() == clamped_position(current_position.x),
                temp_rect.top() == clamped_position(current_position.y),
                temp_rect.spec_width() == w,
                h == vehicle.rect.spec_height(),
                temp_rect.spec_height() == h,
                goal == plan(*vehicle, *start_position, all_vehicles@),
                plan_outer(*vehicle, all_vehicles@, PlanState { path: path@, time, position: current_position,
                    direction: current_direction, speed, fuel }) == goal,
                speed == 2 || speed == 3,
                all_vehicles@.len() == 0 ==> tracks_free_path(*vehicle, *start_position, path@,
                    current_position, current_direction, speed),
                all_vehicles@.len() == 0 ==> fuel + 2 * path@.len() == MAX_PLANNING_STEPS,
                all_vehicles@.len() == 0 ==> path@.len() <= 0x1_0000_0000,
            decreases fuel,
        {
            proof {
                if all_vehicles@.len() == 0 {
                    assert(shows_at(w, free_state_of(*vehicle, *start_position, path@.len()).position));
                    let n = path@.len();
                    assert forall|i: nat| i <= n implies shows_at(
                        w,
                        #[trigger] free_state(vehicle.start_direction, vehicle.target_direction,
                            vehicle.turn_position, *start_position, i).position,
                    ) by {
                        if i < n {
                            let j = i as int;
                            assert(shows_at(w, free_state_of(*vehicle, *start_position, j as nat).position));
                        }
                    }
                    lemma_free_path_short(w, vehicle.start_direction, vehicle.target_direction,
                        vehicle.turn_position, *start_position, n);
                }
            }
            if fuel == 0 {
                return Err(PathError::StepLimit);
            }
            fuel = fuel - 1;
            let ghost outer_fuel = fuel;
            current_direction.update_direction(
                &vehicle.target_direction,
                &current_position,
                &vehicle.turn_position,
            );
            proof {
                lemma_shown_can_move(w, current_position, current_direction, speed);
            }
            current_position = current_position.move_in_direction(&current_direction, speed);
            path.push(TimedPosition { position: current_position, time });
            temp_rect.set_x(current_position.x);
            temp_rect.set_y(current_position.y);
            if current_position.is_out_of_intersection() && speed != 3 {
                speed = 3;
            }
            proof {
                if all_vehicles@.len() == 0 {
                    assert forall|i: int| 0 <= i < path@.len() implies shows_at(
                        w,
                        #[trigger] free_state_of(*vehicle, *start_position, i as nat).position,
                    ) by {}
                }
            }
            while time <= path[path.len() - 1].time
                invariant
                    w == vehicle.rect.spec_width(),
                    t0 == start_time(all_vehicles@),
                    path@.len() > 0,
                    t0 + path@.len() - 1 <= time <= t0 + path@.len(),
                    forall|i: int| 0 <= i < path@.len() ==> #[trigger] path@[i].time == t0 + i,
                    current_position == path@.last().position,
                    temp_rect.left() == clamped_position(current_position.x),
                    temp_rect.top() == clamped_position(current_position.y),
                    temp_rect.spec_width() == w,
                    h == vehicle.rect.spec_height(),
                    temp_rect.spec_height() == h,
                    goal == plan(*vehicle, *start_position, all_vehicles@),
                    plan_ticks(*vehicle, all_vehicles@, PlanState { path: path@, time, position: current_position,
                        direction: current_direction, speed, fuel }) == goal,
                    speed == 2 || speed == 3,
                    all_vehicles@.len() == 0 ==> tracks_free_path(*vehicle, *start_position,
                        path@, current_position, current_direction, speed),
                    fuel <= outer_fuel,
                    all_vehicles@.len() == 0 ==> fuel + (time - (t0 + path@.len() - 1)) == outer_fuel,
                    all_vehicles@.len() == 0 ==> outer_fuel + 2 * path@.len() == MAX_PLANNING_STEPS + 1,
                    all_vehicles@.len() == 0 ==> path@.len() <= 0x1_0000_0000,
                decreases fuel,
            {
                if fuel == 0 {
                    return Err(PathError::StepLimit);
                }
                fuel = fuel - 1;
                let ghost round_fuel = fuel;
                let relevant = Self::relevant_vehicles(vehicle, all_vehicles, &current_position, time);
                let mut k: usize = 0;
                while k < relevant.len()
                    invariant
                        w == vehicle.rect.spec_width(),
                        t0 == start_time(all_vehicles@),
                        path@.len() > 0,
                        time == t0 + path@.len() - 1,
                        forall|i: int| 0 <= i < path@.len() ==> #[trigger] path@[i].time == t0 + i,
                        current_position == path@.last().position,
                        temp_rect.left() == clamped_position(current_position.x),
                        temp_rect.top() == clamped_position(current_position.y),
                        temp_rect.spec_width() == w,
                        h == vehicle.rect.spec_height(),
                        temp_rect.spec_height() == h,
                        goal == plan(*vehicle, *start_position, all_vehicles@),
                        plan_checks(*vehicle, all_vehicles@, PlanState { path: path@, time, position: current_position,
                            direction: current_direction, speed, fuel }, relevant@, k as int) == goal,
                        k <= relevant@.len(),
                        speed == 2 || speed == 3,
                        forall|m: int| 0 <= m < relevant@.len() ==> #[trigger] relevant@[m]
                            < all_vehicles@.len(),
                        all_vehicles@.len() == 0 ==> relevant@.len() == 0,
                        all_vehicles@.len() == 0 ==> tracks_free_path(*vehicle, *start_position,
                            path@, current_position, current_direction, speed),
                        fuel <= round_fuel,
                        all_vehicles@.len() == 0 ==> fuel == round_fuel,
                        all_vehicles@.len() == 0 ==> path@.len() <= 0x1_0000_0000,
                        all_vehicles@.len() == 0 ==> outer_fuel + 2 * path@.len() == MAX_PLANNING_STEPS + 1,
                    decreases fuel,
                {
                    if fuel == 0 {
                        return Err(PathError::StepLimit);
                    }
                    fuel = fuel - 1;
                    let other = &all_vehicles[relevant[k]];
                    k = k + 1;
                    let found = index_of_time(&other.path, time);
                    proof {
                        lemma_first_index(other.path@, time, 0);
                    }
                    if found.is_none() {
                        continue;
                    }
                    let tp = other.path[found.unwrap()];
                    let lane = vehicle.initial_position == other.initial_position
                        && vehicle.target_direction == other.target_direction;
                    if !tp.position.is_in_intersection() && !lane {
                        continue;
                    }
                    if !current_position.is_in_intersection() && !lane {
                        continue;
                    }
                    let vehicle_rect = Rect::new(
                        tp.position.x,
                        tp.position.y,
                        other.rect.width(),
                        other.rect.height(),
                    );
                    if !vehicle_rect.has_intersection(temp_rect) {
                        continue;
                    }
                    if path.len() == 1 || current_position == path[0].position {
                        if time == u64::MAX {
                            return Err(PathError::TimeOverflow);
                        }
                        path.push(TimedPosition { position: current_position, time: time + 1 });
                        time = time + 1;
                        continue;
                    }
                    proof {
                        assert(collides_at(w, h, current_position, vehicle_rect));
                        lemma_current_not_clear(w, h, path@, current_position, vehicle_rect);
                    }
                    let resolved = CollisionResolver::resolve_collision(
                        vehicle,
                        &mut path,
                        &current_position,
                        &vehicle_rect,
                    );
                    let ghost before_resolve = path@;
                    let t = match resolved {
                        Ok(t) => t,
                        Err(e) => {
                            return Err(PathError::Resolve(e));
                        },
                    };
                    time = t;
                    let idx = Self::index_of_tick(&path, t, Ghost(t0));
                    path.truncate(idx + 1);
                    k = 0;
                    current_position = path[idx].position;
                    temp_rect.set_x(current_position.x);
                    temp_rect.set_y(current_position.y);
                    current_direction = if current_position.is_after_turn(&vehicle.turn_position) {
                        vehicle.target_direction
                    } else {
                        vehicle.start_direction
                    };
                }
                if time == u64::MAX {
                    return Err(PathError::TimeOverflow);
                }
                time = time + 1;
            }
        }
        Ok(path)
    }

    /// The index of the entry for tick `t` in a path whose ticks run on from `t0`.
    fn index_of_tick(path: &Vec<TimedPosition>, t: u64, Ghost(t0): Ghost<int>) -> (r: usize)
        requires
            forall|i: int| 0 <= i < path@.len() ==> #[trigger] path@[i].time == t0 + i,
            exists|k: int| 0 <= k < path@.len() && #[trigger] path@[k].time == t,
        ensures
            r < path@.len(),
            path@[r as int].time == t,
            r == t - t0,
    {
        let found = index_of_time(path, t);
        match found {
            Some(i) => i,
            None => {
                proof {
                    let k = choose|k: int| 0 <= k < path@.len() && #[trigger] path@[k].time == t;
                    assert(path@[k].time == t);
                }
                0
            },
        }
    }

    /// Indices, in order, of the vehicles of `all_vehicles` that can get in the way of
    /// `vehicle` at tick `time` while it stands at `current_position`.
    fn relevant_vehicles(
        vehicle: &Vehicle,
        all_vehicles: &Vec<Vehicle>,
        current_position: &Position,
        time: u64,
    ) -> (r: Vec<usize>)
        ensures
            forall|m: int| 0 <= m < r@.len() ==> #[trigger] r@[m] < all_vehicles@.len(),
            forall|m: int|
                0 <= m < r@.len() ==> relevant_for_collision(*vehicle,
                    all_vehicles@[#[trigger] r@[m] as int], *current_position, time),
            forall|j: int|
                0 <= j < all_vehicles@.len() && relevant_for_collision(*vehicle,
                    #[trigger] all_vehicles@[j], *current_position, time) ==> r@.contains(j as usize),
            forall|m: int, n: int| 0 <= m < n < r@.len() ==> r@[m] < r@[n],
            all_vehicles@.len() == 0 ==> r@.len() == 0,
            r@ == relevant_seq(*vehicle, all_vehicles@, *current_position, time, all_vehicles@.len() as int),
    {
        let mut r: Vec<usize> = Vec::new();
        let mut j: usize = 0;
        while j < all_vehicles.len()
            invariant
                j <= all_vehicles@.len(),
                r@.len() <= j,
                forall|m: int| 0 <= m < r@.len() ==> #[trigger] r@[m] < j,
                forall|m: int|
                    0 <= m < r@.len() ==> relevant_for_collision(*vehicle,
                        all_vehicles@[#[trigger] r@[m] as int], *current_position, time),
                forall|i: int|
                    0 <= i < j && relevant_for_collision(*vehicle, #[trigger] all_vehicles@[i],
                        *current_position, time) ==> r@.contains(i as usize),
                forall|m: int, n: int| 0 <= m < n < r@.len() ==> r@[m] < r@[n],
                r@ == relevant_seq(*vehicle, all_vehicles@, *current_position, time, j as int),
            decreases all_vehicles@.len() - j,
        {
            let ghost before = r@;
            if CollisionDetector::is_relevant_for_collision(
                vehicle,
                &all_vehicles[j],
                current_position,
                &time,
            ) {
                r.push(j);
                proof {
                    assert(r@[r@.len() - 1] == j);
                    assert forall|i: int|
                        0 <= i < j + 1 && relevant_for_collision(*vehicle,
                            #[trigger] all_vehicles@[i], *current_position, time) implies r@.contains(
                        i as usize,
                    ) by {
                        if i < j {
                            let m = choose|m: int| 0 <= m < before.len() && before[m] == i as usize;
                            assert(r@[m] == before[m]);
                        }
                    }
                }
            }
            j = j + 1;
        }
        r
    }
}

/// A planned path starts at the current tick of the road: the first tick of the first
/// vehicle's path when there is one (tick 1 on an empty road), and runs on one tick per
/// entry from there.
pub proof fn lemma_planned_path_starts_on_the_road_clock(
    v: Vehicle,
    start: Position,
    others: Seq<Vehicle>,
    path: Seq<TimedPosition>,
)
    requires
        planned_path(v, start, others, path),
    ensures
        others.len() > 0 && others[0].path@.len() > 0 ==> forall|i: int|
            0 <= i < path.len() ==> #[trigger] path[i].time == others[0].path@[0].time + i,
        others.len() == 0 ==> forall|i: int| 0 <= i < path.len() ==> #[trigger] path[i].time == 1 + i,
{
}

} // verus!
