use vstd::prelude::*;
use crate::constants::{SPAWN_COOLDOWN_MS, VEHICLE_SIZE, WINDOW_SIZE};
use crate::direction::Direction;
use crate::geometry::position::{Position, TimedPosition};
use crate::geometry::rect_extensions::spec_in_bounds;
use crate::simulation::statistics::{
    pairs_after_check, side_index, tally_exit, tally_seen, IntersectionTally, Statistics,
};
use crate::vehicles::path_calculator::{plan, planned_path, PathError};
use crate::geometry::spawn::spec_spawn_position;
use crate::vehicles::vehicle_data::{
    advanced_from, corner, next_corner, spawn_template, with_path, Vehicle,
};

verus! {

/// The id and corner of each vehicle of `vs`, in order: what the close calls are
/// counted on.
pub open spec fn positions_of(vs: Seq<Vehicle>) -> Seq<(usize, (i32, i32))> {
    Seq::new(vs.len(), |m: int| (vs[m].id, (vs[m].rect.left() as i32, vs[m].rect.top() as i32)))
}

/// Whether a vehicle that last spawned on a side at `last` (milliseconds, if ever) may
/// spawn there again at `now`: the cooldown has elapsed (a clock that went back counts
/// as no time elapsed).
pub open spec fn cooldown_elapsed(last: Option<u64>, now: u64) -> bool {
    match last {
        None => true,
        Some(t) => now >= t && now - t >= SPAWN_COOLDOWN_MS,
    }
}

/// Whether a vehicle still shows in the window.
pub open spec fn vehicle_shows(v: Vehicle) -> bool {
    spec_in_bounds(v.rect.left(), v.rect.top(), v.rect.spec_width() as i32 as int,
        WINDOW_SIZE as i32 as int)
}

/// Whether a vehicle still shows in the window after its next move.
pub open spec fn shows_after_move(v: Vehicle) -> bool {
    spec_in_bounds(next_corner(v).x as int, next_corner(v).y as int, v.rect.spec_width() as i32 as int,
        WINDOW_SIZE as i32 as int)
}

/// The vehicles of `vs` that still show after their next move, in order.
pub open spec fn staying(vs: Seq<Vehicle>) -> Seq<Vehicle>
    decreases vs.len(),
{
    if vs.len() == 0 {
        Seq::empty()
    } else if shows_after_move(vs.last()) {
        staying(vs.drop_last()).push(vs.last())
    } else {
        staying(vs.drop_last())
    }
}

/// The ids of the vehicles of `vs` that leave the window with their next move, in order.
pub open spec fn leaving_ids(vs: Seq<Vehicle>) -> Seq<usize>
    decreases vs.len(),
{
    if vs.len() == 0 {
        Seq::empty()
    } else if shows_after_move(vs.last()) {
        leaving_ids(vs.drop_last())
    } else {
        leaving_ids(vs.drop_last()).push(vs.last().id)
    }
}

/// The intersection tally after each vehicle of `vs`, in order, made its next move: it is
/// seen where it arrives, and counted out if it left the window.
pub open spec fn tally_after_moves(t: IntersectionTally, vs: Seq<Vehicle>) -> IntersectionTally
    decreases vs.len(),
{
    if vs.len() == 0 {
        t
    } else {
        let v = vs.last();
        let seen = tally_seen(tally_after_moves(t, vs.drop_last()), v.id, next_corner(v));
        if shows_after_move(v) {
            seen
        } else {
            tally_exit(seen, v.id)
        }
    }
}

/// What one tick did to each vehicle.
pub struct VehicleUpdates {
    /// For each vehicle, in order: its id, its corner before the tick and after it.
    pub moves: Vec<(usize, Position, Position)>,
    /// The ids of the vehicles that left the window during the tick, in order.
    pub exited: Vec<usize>,
}

/// The vehicles on the road, the time each side last spawned one, and the statistics.
pub struct VehicleManager {
    vehicles: Vec<Vehicle>,
    last_spawn_time: Vec<Option<u64>>,
    statistics: Statistics,
}

impl VehicleManager {
    pub closed spec fn spec_vehicles(self) -> Seq<Vehicle> {
        self.vehicles@
    }

    pub closed spec fn spec_last_spawn_time(self, d: Direction) -> Option<u64> {
        self.last_spawn_time@[side_index(d)]
    }

    pub closed spec fn spec_statistics(self) -> Statistics {
        self.statistics
    }

    pub closed spec fn wf(self) -> bool {
        &&& self.last_spawn_time@.len() == 4
        &&& self.statistics.wf()
    }

    pub fn new() -> (m: VehicleManager)
        ensures
            m.wf(),
            m.spec_vehicles().len() == 0,
            forall|d: Direction| #[trigger] m.spec_last_spawn_time(d) is None,
            m.spec_statistics().total_vehicles == 0,
            m.spec_statistics().vehicle_counter == 0,
    {
        VehicleManager {
            vehicles: Vec::new(),
            last_spawn_time: vec![None, None, None, None],
            statistics: Statistics::new(),
        }
    }

    pub fn get_statistics(&self) -> (s: &Statistics)
        ensures
            *s == self.spec_statistics(),
    {
        &self.statistics
    }

    pub fn get_vehicles(&self) -> (v: &Vec<Vehicle>)
        ensures
            v@ == self.spec_vehicles(),
    {
        &self.vehicles
    }

    /// Whether one more vehicle can be spawned without a counter overflowing.
    pub fn can_count_vehicle(&self) -> (r: bool)
        requires
            self.wf(),
        ensures
            r == self.spec_statistics().can_add(),
    {
        self.statistics.can_add_vehicle()
    }

    /// Spawns a vehicle on side `direction` at time `now_ms` (milliseconds) unless that
    /// side spawned one less than the cooldown ago; returns whether it spawned one.
    pub fn try_spawn_vehicle(&mut self, direction: Direction, now_ms: u64) -> (r: Result<
        bool,
        PathError,
    >)
        requires
            old(self).wf(),
            old(self).spec_statistics().can_add(),
        ensures
            final(self).wf(),
            !cooldown_elapsed(old(self).spec_last_spawn_time(direction), now_ms) ==> r == Ok::<
                bool,
                PathError,
            >(false) && *final(self) == *old(self),
            cooldown_elapsed(old(self).spec_last_spawn_time(direction), now_ms) ==> r != Ok::<
                bool,
                PathError,
            >(false),
            cooldown_elapsed(old(self).spec_last_spawn_time(direction), now_ms) && old(
                self,
            ).spec_vehicles().len() == 0 ==> r == Ok::<bool, PathError>(true),
            r matches Err(e) ==> exists|t: Vehicle|
                #[trigger] spawn_template(t, direction, t.target_direction, VEHICLE_SIZE, old(
                    self,
                ).spec_statistics().vehicle_counter) && plan(
                    t,
                    spec_spawn_position(direction, t.target_direction),
                    old(self).spec_vehicles(),
                ) == Err::<Seq<TimedPosition>, PathError>(e),
            r is Err ==> {
                &&& final(self).spec_vehicles() == old(self).spec_vehicles()
                &&& forall|d: Direction| #[trigger] final(self).spec_last_spawn_time(d) == old(
                    self,
                ).spec_last_spawn_time(d)
                &&& final(self).spec_statistics().total_vehicles == old(
                    self,
                ).spec_statistics().total_vehicles + 1
                &&& final(self).spec_statistics().vehicle_counter == old(
                    self,
                ).spec_statistics().vehicle_counter + 1
            },
            r == Ok::<bool, PathError>(true) ==> {
                let v = final(self).spec_vehicles().last();
                &&& final(self).spec_vehicles().len() == old(self).spec_vehicles().len() + 1
                &&& final(self).spec_vehicles().drop_last() == old(self).spec_vehicles()
                &&& v.id == old(self).spec_statistics().vehicle_counter
                &&& v.initial_position == direction
                &&& v.target_direction != direction
                &&& exists|t: Vehicle|
                    #[trigger] spawn_template(t, direction, v.target_direction, VEHICLE_SIZE, old(
                        self,
                    ).spec_statistics().vehicle_counter) && v == with_path(t, v.path) && plan(
                        t,
                        spec_spawn_position(direction, v.target_direction),
                        old(self).spec_vehicles(),
                    ) == Ok::<Seq<TimedPosition>, PathError>(v.path@)
                &&& final(self).spec_last_spawn_time(direction) == Some(now_ms)
                &&& forall|d: Direction|
                    d != direction ==> #[trigger] final(self).spec_last_spawn_time(d) == old(
                        self,
                    ).spec_last_spawn_time(d)
                &&& final(self).spec_statistics().total_vehicles == old(
                    self,
                ).spec_statistics().total_vehicles + 1
                &&& final(self).spec_statistics().vehicle_counter == old(
                    self,
                ).spec_statistics().vehicle_counter + 1
            },
    {
        let i: usize = match direction {
            Direction::Up => 0,
            Direction::Down => 1,
            Direction::Left => 2,
            Direction::Right => 3,
        };
        let can_spawn = match self.last_spawn_time[i] {
            Some(last_time) => now_ms >= last_time && now_ms - last_time >= SPAWN_COOLDOWN_MS,
            None => true,
        };
        if can_spawn {
            let vehicle_id = self.statistics.add_vehicle(direction);
            self.spawn_vehicle(direction, vehicle_id)?;
            let ghost mid = self.last_spawn_time@;
            proof {
                assert forall|d: Direction| #[trigger] mid[side_index(d)] == old(self).last_spawn_time@[side_index(d)] by {
                    assert(self.spec_last_spawn_time(d) == old(self).spec_last_spawn_time(d));
                }
            }
            self.last_spawn_time.set(i, Some(now_ms));
            proof {
                assert(i == side_index(direction));
                assert forall|d: Direction| d != direction implies #[trigger] self.spec_last_spawn_time(d)
                    == old(self).spec_last_spawn_time(d) by {
                    assert(side_index(d) != side_index(direction));
                    assert(mid[side_index(d)] == old(self).last_spawn_time@[side_index(d)]);
                }
            }
            Ok(true)
        } else {
            Ok(false)
        }
    }

    /// Adds a vehicle with id `vehicle_id` on side `initial_position`, bound for a side
    /// drawn at random among the three others, its path planned around the vehicles on
    /// the road.
    pub fn spawn_vehicle(&mut self, initial_position: Direction, vehicle_id: usize) -> (r: Result<
        (),
        PathError,
    >)
        requires
            old(self).wf(),
        ensures
            final(self).wf(),
            final(self).spec_statistics() == old(self).spec_statistics(),
            forall|d: Direction| #[trigger] final(self).spec_last_spawn_time(d) == old(self).spec_last_spawn_time(d),
            r is Ok ==> {
                let v = final(self).spec_vehicles().last();
                &&& final(self).spec_vehicles().len() == old(self).spec_vehicles().len() + 1
                &&& final(self).spec_vehicles().drop_last() == old(self).spec_vehicles()
                &&& v.id == vehicle_id
                &&& v.initial_position == initial_position
                &&& v.target_direction != initial_position
                &&& planned_path(v, spec_spawn_position(initial_position, v.target_direction),
                    old(self).spec_vehicles(), v.path@)
                &&& exists|t: Vehicle|
                    #[trigger] spawn_template(t, initial_position, v.target_direction, VEHICLE_SIZE,
                        vehicle_id) && v == with_path(t, v.path) && plan(
                        t,
                        spec_spawn_position(initial_position, v.target_direction),
                        old(self).spec_vehicles(),
                    ) == Ok::<Seq<TimedPosition>, PathError>(v.path@)
            },
            r matches Err(e) ==> exists|t: Vehicle|
                #[trigger] spawn_template(t, initial_position, t.target_direction, VEHICLE_SIZE,
                    vehicle_id) && plan(
                    t,
                    spec_spawn_position(initial_position, t.target_direction),
                    old(self).spec_vehicles(),
                ) == Err::<Seq<TimedPosition>, PathError>(e),
            r is Err ==> final(self).spec_vehicles() == old(self).spec_vehicles(),
            old(self).spec_vehicles().len() == 0 ==> r is Ok,
    {
        let target_direction = Direction::new(Some(initial_position));
        let vehicle = Vehicle::new(
            initial_position,
            target_direction,
            VEHICLE_SIZE,
            &self.vehicles,
            vehicle_id,
        )?;
        self.vehicles.push(vehicle);
        proof {
            assert(self.vehicles@.drop_last() == old(self).vehicles@);
        }
        Ok(())
    }

    /// Whether one tick can be counted without the close-call counter overflowing.
    pub open spec fn can_update(self) -> bool {
        pairs_after_check(self.spec_statistics(), positions_of(self.spec_vehicles())).len()
            <= u32::MAX
    }

    /// Whether one tick can be counted without the close-call counter overflowing.
    pub fn can_update_vehicles(&self) -> (r: bool)
        requires
            self.wf(),
        ensures
            r == self.can_update(),
    {
        let positions = self.vehicle_positions();
        self.statistics.close_calls_fit(positions.as_slice())
    }

    /// The id and corner of every vehicle, in order.
    fn vehicle_positions(&self) -> (positions: Vec<(usize, (i32, i32))>)
        ensures
            positions@ == positions_of(self.spec_vehicles()),
    {
        let n = self.vehicles.len();
        let mut positions: Vec<(usize, (i32, i32))> = Vec::new();
        let mut k: usize = 0;
        while k < n
            invariant
                n == self.vehicles@.len(),
                k <= n,
                positions@.len() == k,
                forall|m: int|
                    0 <= m < k ==> #[trigger] positions@[m] == (
                        self.vehicles@[m].id,
                        (self.vehicles@[m].rect.left() as i32, self.vehicles@[m].rect.top() as i32),
                    ),
            decreases n - k,
        {
            let v = &self.vehicles[k];
            positions.push((v.id, (v.rect.x(), v.rect.y())));
            k = k + 1;
        }
        proof {
            assert(positions@ =~= positions_of(self.spec_vehicles()));
        }
        positions
    }

    /// One tick: counts the close calls among the vehicles where they stand, moves every
    /// vehicle one entry along its path, counts them in and out of the intersection, and
    /// removes those that left the window.
    pub fn update_vehicles(&mut self) -> (u: VehicleUpdates)
        requires
            old(self).wf(),
            old(self).can_update(),
        ensures
            final(self).wf(),
            u.moves@.len() == old(self).spec_vehicles().len(),
            forall|m: int|
                0 <= m < u.moves@.len() ==> #[trigger] u.moves@[m] == (
                    old(self).spec_vehicles()[m].id,
                    corner(old(self).spec_vehicles()[m]),
                    next_corner(old(self).spec_vehicles()[m]),
                ),
            final(self).spec_vehicles().len() == staying(old(self).spec_vehicles()).len(),
            forall|k: int|
                0 <= k < final(self).spec_vehicles().len() ==> advanced_from(
                    #[trigger] final(self).spec_vehicles()[k],
                    staying(old(self).spec_vehicles())[k],
                ),
            u.exited@ == leaving_ids(old(self).spec_vehicles()),
            final(self).spec_statistics().tally() == tally_after_moves(
                old(self).spec_statistics().tally(),
                old(self).spec_vehicles(),
            ),
            final(self).spec_vehicles().len() + u.exited@.len() == old(self).spec_vehicles().len(),
            forall|k: int|
                0 <= k < final(self).spec_vehicles().len() ==> vehicle_shows(
                    #[trigger] final(self).spec_vehicles()[k],
                ),
            final(self).spec_statistics().close_call_pairs@.to_set() == pairs_after_check(
                old(self).spec_statistics(),
                positions_of(old(self).spec_vehicles()),
            ),
            final(self).spec_statistics().total_close_calls == pairs_after_check(
                old(self).spec_statistics(),
                positions_of(old(self).spec_vehicles()),
            ).len(),
            final(self).spec_statistics().total_vehicles == old(self).spec_statistics().total_vehicles,
            final(self).spec_statistics().vehicle_counter == old(self).spec_statistics().vehicle_counter,
            forall|d: Direction| #[trigger] final(self).spec_last_spawn_time(d) == old(self).spec_last_spawn_time(d),
    {
        let n = self.vehicles.len();
        let positions = self.vehicle_positions();
        self.statistics.check_close_calls(positions.as_slice());
        let ghost pairs_after = self.statistics.close_call_pairs@.to_set();
        let ghost total_after = self.statistics.total_close_calls;
        let ghost tally0 = self.statistics.tally();
        assert(tally0 == old(self).statistics.tally());
        let mut old_vehicles: Vec<Vehicle> = Vec::new();
        std::mem::swap(&mut old_vehicles, &mut self.vehicles);
        let ghost initial_vehicles = old_vehicles@;
        let mut moves: Vec<(usize, Position, Position)> = Vec::new();
        let mut exited: Vec<usize> = Vec::new();
        let mut done: usize = 0;
        while done < n
            invariant
                n == initial_vehicles.len(),
                done <= n,
                old_vehicles@ == initial_vehicles.subrange(done as int, n as int),
                initial_vehicles == old(self).vehicles@,
                moves@.len() == done,
                forall|m: int|
                    0 <= m < done ==> #[trigger] moves@[m] == (
                        initial_vehicles[m].id,
                        corner(initial_vehicles[m]),
                        next_corner(initial_vehicles[m]),
                    ),
                self.vehicles@.len() == staying(initial_vehicles.subrange(0, done as int)).len(),
                forall|k: int|
                    0 <= k < self.vehicles@.len() ==> advanced_from(
                        #[trigger] self.vehicles@[k],
                        staying(initial_vehicles.subrange(0, done as int))[k],
                    ),
                exited@ == leaving_ids(initial_vehicles.subrange(0, done as int)),
                self.statistics.tally() == tally_after_moves(tally0, initial_vehicles.subrange(0, done as int)),
                self.vehicles@.len() + exited@.len() == done,
                forall|k: int| 0 <= k < self.vehicles@.len() ==> vehicle_shows(#[trigger] self.vehicles@[k]),
                self.last_spawn_time == old(self).last_spawn_time,
                self.statistics.wf(),
                self.statistics.close_call_pairs@.to_set() == pairs_after,
                self.statistics.total_close_calls == total_after,
                self.statistics.total_vehicles == old(self).statistics.total_vehicles,
                self.statistics.vehicle_counter == old(self).statistics.vehicle_counter,
            decreases n - done,
        {
            let mut vehicle = old_vehicles.remove(0);
            let ghost before = vehicle;
            proof {
                assert(vehicle == initial_vehicles[done as int]);
                let sub = initial_vehicles.subrange(0, done + 1);
                assert(sub.drop_last() == initial_vehicles.subrange(0, done as int));
                assert(sub.last() == before);
            }
            let old_pos = Position { x: vehicle.rect.x(), y: vehicle.rect.y() };
            vehicle.update_position();
            let new_pos = Position { x: vehicle.rect.x(), y: vehicle.rect.y() };
            moves.push((vehicle.id, old_pos, new_pos));
            self.statistics.update_vehicle_stats(vehicle.id, new_pos);
            if !vehicle.is_in_bounds(WINDOW_SIZE) {
                exited.push(vehicle.id);
                self.statistics.record_vehicle_exit(vehicle.id);
            } else {
                self.vehicles.push(vehicle);
            }
            proof {
                assert(old_vehicles@ =~= initial_vehicles.subrange(done + 1, n as int));
            }
            done = done + 1;
        }
        proof {
            assert(initial_vehicles.subrange(0, n as int) == initial_vehicles);
        }
        VehicleUpdates { moves, exited }
    }
}

/// A side that spawned a vehicle at `spawned_ms` cannot spawn again before the cooldown
/// has elapsed: `try_spawn_vehicle` then returns `Ok(false)` and changes nothing.
pub proof fn lemma_spawn_cooldown(m: VehicleManager, d: Direction, spawned_ms: u64, now_ms: u64)
    requires
        m.spec_last_spawn_time(d) == Some(spawned_ms),
        spawned_ms <= now_ms < spawned_ms + SPAWN_COOLDOWN_MS,
    ensures
        !cooldown_elapsed(m.spec_last_spawn_time(d), now_ms),
{
}

} // verus!
