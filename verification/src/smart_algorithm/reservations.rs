use vstd::prelude::*;
use std::collections::{HashMap, VecDeque};
use crate::block_system::{block_key, block_key_of, lemma_block_key_injective, BlockPosition};
use crate::compass::{Direction, Route};
use crate::smart_algorithm::{GridCoord, IntersectionGrid, GRID_SIZE};
use crate::geometry::position::div_toward_zero;

verus! {

broadcast use vstd::std_specs::hash::group_hash_axioms;

/// Delay between a request for passage and the time at which it asks to enter.
pub const ENTRY_DELAY_MS: u64 = 1000;

/// Delay given to a refused request before it asks to enter again.
pub const RETRY_DELAY_MS: u64 = 500;

/// Time to cross one cell at the speed assumed for a refused request (100 pixels a
/// second over 32-pixel cells).
pub const RETRY_CELL_TIME_MS: u64 = 320;

/// The key under which a cell's reservation is stored.
pub open spec fn cell_key(c: GridCoord) -> u64 {
    block_key(BlockPosition { x: c.x, y: c.y })
}

/// The cell stored under key `k`: keys and cells correspond one to one.
pub open spec fn key_cell(k: u64) -> GridCoord {
    GridCoord {
        x: (k / 0x1_0000_0000 - 0x8000_0000) as i32,
        y: (k % 0x1_0000_0000 - 0x8000_0000) as i32,
    }
}

pub proof fn lemma_cell_key_bijection(c: GridCoord, k: u64)
    ensures
        key_cell(cell_key(c)) == c,
        cell_key(key_cell(k)) == k,
        cell_key(c) == k <==> c == key_cell(k),
{
    let a = c.x + 0x8000_0000;
    let b = c.y + 0x8000_0000;
    assert(0 <= a * 0x1_0000_0000 + b <= u64::MAX) by (nonlinear_arith)
        requires
            0 <= a < 0x1_0000_0000,
            0 <= b < 0x1_0000_0000,
    ;
    assert((a * 0x1_0000_0000 + b) / 0x1_0000_0000 == a && (a * 0x1_0000_0000 + b) % 0x1_0000_0000
        == b) by (nonlinear_arith)
        requires
            0 <= a < 0x1_0000_0000,
            0 <= b < 0x1_0000_0000,
    ;
    assert(k == (k / 0x1_0000_0000) * 0x1_0000_0000 + k % 0x1_0000_0000);
    assert(k / 0x1_0000_0000 < 0x1_0000_0000);
}

/// A vehicle's request to cross the intersection over a path of cells, between two
/// times in milliseconds.
#[derive(Debug, Clone)]
pub struct ReservationRequest {
    pub vehicle_id: u32,
    pub path_coords: Vec<GridCoord>,
    pub entry_time: u64,
    pub exit_time: u64,
    pub priority: u32,
}

/// Whether a cell holding `held` (vehicle and time until which it is held, if any) may be
/// given to vehicle `id` entering at `entry`: it is free, already its own, or released
/// by then.
pub open spec fn cell_free_for(held: Option<(u32, u64)>, id: u32, entry: u64) -> bool {
    match held {
        Some((other, until)) => other == id || until <= entry,
        None => true,
    }
}

/// The reservation of cell `c` in the table `m`, if any.
pub open spec fn reservation_in(m: Map<u64, (u32, u64)>, c: GridCoord) -> Option<(u32, u64)> {
    if m.contains_key(cell_key(c)) {
        Some(m[cell_key(c)])
    } else {
        None
    }
}

/// `t` capped at the largest time a `u64` holds.
pub open spec fn capped(t: int) -> u64 {
    if t > u64::MAX {
        u64::MAX
    } else {
        t as u64
    }
}

/// Whether every cell of `path` may be given to vehicle `id` entering at `entry`.
pub open spec fn path_free_for(m: Map<u64, (u32, u64)>, path: Seq<GridCoord>, id: u32, entry: u64) -> bool {
    forall|i: int| 0 <= i < path.len() ==> #[trigger] cell_free_for(reservation_in(m, path[i]), id, entry)
}

/// The table `m` with every cell of `path` reserved as `held`, cell by cell in order.
pub open spec fn reserve_all(m: Map<u64, (u32, u64)>, path: Seq<GridCoord>, held: (u32, u64)) -> Map<
    u64,
    (u32, u64),
>
    decreases path.len(),
{
    if path.len() == 0 {
        m
    } else {
        reserve_all(m, path.drop_last(), held).insert(cell_key(path.last()), held)
    }
}

/// Whether a cell holding `held` is held by a vehicle other than `id`.
pub open spec fn held_by_other(held: Option<(u32, u64)>, id: u32) -> bool {
    held matches Some(v) && v.0 != id
}

/// `s`, ordered by priority from highest to lowest, with `r` inserted after every request
/// of at least its priority.
pub open spec fn insert_by_priority(s: Seq<ReservationRequest>, r: ReservationRequest) -> Seq<
    ReservationRequest,
>
    decreases s.len(),
{
    if s.len() == 0 {
        seq![r]
    } else if s[0].priority < r.priority {
        seq![r] + s
    } else {
        seq![s[0]] + insert_by_priority(s.drop_first(), r)
    }
}

/// The requests `s` ordered by priority from highest to lowest; requests of equal
/// priority keep their order.
pub open spec fn by_priority(s: Seq<ReservationRequest>) -> Seq<ReservationRequest>
    decreases s.len(),
{
    if s.len() == 0 {
        s
    } else {
        insert_by_priority(by_priority(s.drop_last()), s.last())
    }
}

/// Request `r` asked again at time `now`: it enters after the retry delay and crosses
/// its path at the speed assumed for retries.
pub open spec fn retried(r: ReservationRequest, now: u64) -> ReservationRequest {
    ReservationRequest {
        entry_time: capped(now + RETRY_DELAY_MS),
        exit_time: capped(now + RETRY_DELAY_MS + r.path_coords@.len() * RETRY_CELL_TIME_MS),
        ..r
    }
}

/// The state of a pass over the requests: the reservation table, the requests to ask
/// again, and the number granted.
pub struct PassState {
    pub table: Map<u64, (u32, u64)>,
    pub retry: Seq<ReservationRequest>,
    pub granted: nat,
}

/// One request of a pass at time `now`: granted, its path is reserved until its exit;
/// refused, it is asked again.
pub open spec fn pass_step(st: PassState, r: ReservationRequest, now: u64) -> PassState {
    if path_free_for(st.table, r.path_coords@, r.vehicle_id, r.entry_time) {
        PassState {
            table: reserve_all(st.table, r.path_coords@, (r.vehicle_id, r.exit_time)),
            granted: st.granted + 1,
            ..st
        }
    } else {
        PassState { retry: st.retry.push(retried(r, now)), ..st }
    }
}

/// A pass over the requests `rs`, in order, at time `now`, from the table `m`.
pub open spec fn pass(m: Map<u64, (u32, u64)>, rs: Seq<ReservationRequest>, now: u64) -> PassState
    decreases rs.len(),
{
    if rs.len() == 0 {
        PassState { table: m, retry: Seq::empty(), granted: 0 }
    } else {
        pass_step(pass(m, rs.drop_last(), now), rs.last(), now)
    }
}

/// Manages reservations of the cells of the intersection: vehicles request their path,
/// requests are granted by priority when no other vehicle holds a cell of the path at the
/// time of entry, and vehicles check the cells ahead of them.
pub struct SmartIntersectionManager {
    grid: IntersectionGrid,
    reserved_coords: HashMap<u64, (u32, u64)>,
    pending_requests: VecDeque<ReservationRequest>,
    vehicles_processed: u32,
    current_time: u64,
}

impl SmartIntersectionManager {
    /// The reservation grid.
    pub closed spec fn layout(self) -> IntersectionGrid {
        self.grid
    }

    /// The table of reservations, by cell key.
    pub closed spec fn table(self) -> Map<u64, (u32, u64)> {
        self.reserved_coords@
    }

    /// The reservation of cell `c`, if any: the vehicle holding it and until when.
    pub open spec fn reservation(self, c: GridCoord) -> Option<(u32, u64)> {
        reservation_in(self.table(), c)
    }

    /// The requests waiting to be granted, in order of arrival.
    pub closed spec fn pending(self) -> Seq<ReservationRequest> {
        self.pending_requests@
    }

    /// The manager's clock, in milliseconds.
    pub closed spec fn now(self) -> u64 {
        self.current_time
    }

    pub closed spec fn processed(self) -> u32 {
        self.vehicles_processed
    }

    /// A manager for a `window_width` by `window_height` window, with no reservation and
    /// no request, its clock at zero.
    pub fn new(window_width: u32, window_height: u32) -> (m: SmartIntersectionManager)
        ensures
            m.layout().grid_width == div_toward_zero((window_width as i32) as int, GRID_SIZE as int),
            m.layout().grid_height == div_toward_zero((window_height as i32) as int, GRID_SIZE as int),
            m.layout().intersection_center == (GridCoord {
                x: div_toward_zero(m.layout().grid_width as int, 2) as i32,
                y: div_toward_zero(m.layout().grid_height as int, 2) as i32,
            }),
            m.layout().intersection_radius == 6,
            m.layout().wf(),
            forall|c: GridCoord| #[trigger] m.reservation(c) is None,
            m.pending().len() == 0,
            m.now() == 0,
            m.processed() == 0,
    {
        SmartIntersectionManager {
            grid: IntersectionGrid::new(window_width, window_height),
            reserved_coords: HashMap::new(),
            pending_requests: VecDeque::new(),
            vehicles_processed: 0,
            current_time: 0,
        }
    }

    /// The reservation grid.
    pub fn grid(&self) -> (g: &IntersectionGrid)
        ensures
            *g == self.layout(),
    {
        &self.grid
    }

    /// The reservation of cell `coord`, if any.
    pub fn reservation_of(&self, coord: GridCoord) -> (r: Option<(u32, u64)>)
        ensures
            r == self.reservation(coord),
    {
        match self.reserved_coords.get(&block_key_of(BlockPosition { x: coord.x, y: coord.y })) {
            Some(v) => Some(*v),
            None => None,
        }
    }

    /// Whether vehicle `vehicle_id` holds cell `coord` beyond the present time.
    pub fn has_valid_reservation(&self, vehicle_id: u32, coord: GridCoord) -> (r: bool)
        ensures
            r == match self.reservation(coord) {
                Some((id, until)) => id == vehicle_id && until > self.now(),
                None => false,
            },
    {
        match self.reservation_of(coord) {
            Some((id, until_time)) => id == vehicle_id && until_time > self.current_time,
            None => false,
        }
    }

    /// Releases every cell that vehicle `vehicle_id` holds.
    pub fn clear_vehicle_reservations(&mut self, vehicle_id: u32)
        ensures
            final(self).table() == keep_unselected(old(self).table(), Selection::HeldBy(vehicle_id)),
            forall|c: GridCoord| #[trigger] final(self).reservation(c) == match old(self).reservation(c) {
                Some(v) => if v.0 == vehicle_id { None } else { Some(v) },
                None => None,
            },
            final(self).layout() == old(self).layout(),
            final(self).pending() == old(self).pending(),
            final(self).now() == old(self).now(),
            final(self).processed() == old(self).processed(),
    {
        let keys = keys_where(&self.reserved_coords, &Selection::HeldBy(vehicle_id));
        remove_keys(&mut self.reserved_coords, &keys);
        assert(self.table() =~= keep_unselected(old(self).table(), Selection::HeldBy(vehicle_id)));
    }

    /// Releases every cell whose reservation has ended by the present time.
    pub fn cleanup_expired_reservations(&mut self)
        ensures
            final(self).table() == keep_unselected(old(self).table(), Selection::EndedBy(old(self).now())),
            forall|c: GridCoord| #[trigger] final(self).reservation(c) == match old(self).reservation(c) {
                Some(v) => if v.1 <= old(self).now() { None } else { Some(v) },
                None => None,
            },
            final(self).layout() == old(self).layout(),
            final(self).pending() == old(self).pending(),
            final(self).now() == old(self).now(),
            final(self).processed() == old(self).processed(),
    {
        let keys = keys_where(&self.reserved_coords, &Selection::EndedBy(self.current_time));
        remove_keys(&mut self.reserved_coords, &keys);
        assert(self.table() =~= keep_unselected(old(self).table(), Selection::EndedBy(old(self).now())));
    }

    /// Whether every cell of the request's path may be given to its vehicle at its time of
    /// entry: no other vehicle holds one of them beyond that time.
    pub fn can_approve_request(&self, request: &ReservationRequest) -> (r: bool)
        ensures
            r == path_free_for(self.table(), request.path_coords@, request.vehicle_id, request.entry_time),
    {
        let mut i: usize = 0;
        while i < request.path_coords.len()
            invariant
                i <= request.path_coords@.len(),
                forall|k: int|
                    0 <= k < i ==> #[trigger] cell_free_for(
                        reservation_in(self.table(), request.path_coords@[k]),
                        request.vehicle_id,
                        request.entry_time,
                    ),
            decreases request.path_coords@.len() - i,
        {
            if let Some((other_vehicle, until_time)) = self.reservation_of(request.path_coords[i]) {
                if other_vehicle != request.vehicle_id && until_time > request.entry_time {
                    assert(!cell_free_for(
                        reservation_in(self.table(), request.path_coords@[i as int]),
                        request.vehicle_id,
                        request.entry_time,
                    ));
                    return false;
                }
            }
            i = i + 1;
        }
        true
    }

    /// Whether none of `cells` is held by a vehicle other than `vehicle_id`.
    fn clear_of_others(&self, cells: &Vec<GridCoord>, vehicle_id: u32) -> (r: bool)
        ensures
            r == forall|i: int| 0 <= i < cells@.len() ==> !#[trigger] held_by_other(self.reservation(cells@[i]), vehicle_id),
    {
        let mut i: usize = 0;
        while i < cells.len()
            invariant
                i <= cells@.len(),
                forall|k: int| 0 <= k < i ==> !#[trigger] held_by_other(self.reservation(cells@[k]), vehicle_id),
            decreases cells@.len() - i,
        {
            if let Some((reserved_id, _)) = self.reservation_of(cells[i]) {
                if reserved_id != vehicle_id {
                    assert(held_by_other(self.reservation(cells@[i as int]), vehicle_id));
                    return false;
                }
            }
            i = i + 1;
        }
        true
    }

    /// Whether vehicle `vehicle_id`, at pixel `position` heading `direction`, may go on:
    /// none of the three cells ahead is held by another vehicle.
    pub fn can_proceed_to_intersection(&self, vehicle_id: u32, position: (i32, i32), direction: Direction) -> (r: bool)
        ensures
            r == forall|i: int| 0 <= i < 3 ==> !#[trigger] held_by_other(
                self.reservation(self.layout().next_cell(position, direction, i)),
                vehicle_id,
            ),
    {
        let ahead = self.grid.get_next_coordinates(position, direction, 3);
        let r = self.clear_of_others(&ahead, vehicle_id);
        proof {
            if r {
                assert forall|i: int| 0 <= i < 3 implies !#[trigger] held_by_other(
                    self.reservation(self.layout().next_cell(position, direction, i)),
                    vehicle_id,
                ) by {
                    assert(ahead@[i] == self.layout().next_cell(position, direction, i));
                    assert(!held_by_other(self.reservation(ahead@[i]), vehicle_id));
                }
            } else {
                let i = choose|i: int| 0 <= i < 3 && held_by_other(self.reservation(ahead@[i]), vehicle_id);
                assert(ahead@[i] == self.layout().next_cell(position, direction, i));
            }
        }
        r
    }

    /// Whether the cell just ahead of vehicle `vehicle_id` is not held by another vehicle.
    pub fn is_intersection_clear_ahead(&self, vehicle_id: u32, position: (i32, i32), direction: Direction) -> (r: bool)
        ensures
            r == !held_by_other(self.reservation(self.layout().next_cell(position, direction, 0)), vehicle_id),
    {
        let ahead = self.grid.get_next_coordinates(position, direction, 1);
        let r = self.clear_of_others(&ahead, vehicle_id);
        proof {
            assert(ahead@[0] == self.layout().next_cell(position, direction, 0));
        }
        r
    }

    /// Whether vehicle `vehicle_id` must slow down to keep its distance: one of the two
    /// cells ahead is held by another vehicle.
    pub fn maintain_following_distance(&self, vehicle_id: u32, position: (i32, i32), direction: Direction) -> (slow_down: bool)
        ensures
            slow_down == exists|i: int| 0 <= i < 2 && #[trigger] held_by_other(
                self.reservation(self.layout().next_cell(position, direction, i)),
                vehicle_id,
            ),
    {
        let ahead = self.grid.get_next_coordinates(position, direction, 2);
        let r = self.clear_of_others(&ahead, vehicle_id);
        proof {
            if !r {
                let i = choose|i: int| 0 <= i < 2 && held_by_other(self.reservation(ahead@[i]), vehicle_id);
                assert(ahead@[i] == self.layout().next_cell(position, direction, i));
                assert(held_by_other(self.reservation(self.layout().next_cell(position, direction, i)), vehicle_id));
            } else {
                assert forall|i: int| 0 <= i < 2 implies !#[trigger] held_by_other(
                    self.reservation(self.layout().next_cell(position, direction, i)),
                    vehicle_id,
                ) by {
                    assert(ahead@[i] == self.layout().next_cell(position, direction, i));
                    assert(!held_by_other(self.reservation(ahead@[i]), vehicle_id));
                }
            }
        }
        !r
    }

    /// Goes over the waiting requests from the highest priority to the lowest (equal
    /// priorities in order of arrival): a request whose path is free is granted and its
    /// path reserved until its exit, any other is asked again later. Returns the number
    /// of requests granted.
    pub fn process_reservation_requests(&mut self) -> (approved: usize)
        ensures
            ({
                let p = pass(old(self).table(), by_priority(old(self).pending()), old(self).now());
                &&& final(self).table() == p.table
                &&& final(self).pending() == p.retry
                &&& approved == p.granted
            }),
            final(self).layout() == old(self).layout(),
            final(self).now() == old(self).now(),
            final(self).processed() == old(self).processed(),
    {
        let mut queue: VecDeque<ReservationRequest> = VecDeque::new();
        std::mem::swap(&mut queue, &mut self.pending_requests);
        let ghost waiting = queue@;
        let mut requests: Vec<ReservationRequest> = Vec::new();
        while queue.len() > 0
            invariant
                requests@ + queue@ == waiting,
            decreases queue@.len(),
        {
            let ghost before = queue@;
            match queue.pop_front() {
                Some(request) => {
                    requests.push(request);
                    proof {
                        assert(requests@ + queue@ =~= waiting) by {
                            assert(before =~= seq![request] + queue@);
                        }
                    }
                },
                None => {},
            }
        }
        proof {
            assert(requests@ =~= waiting);
        }
        let sorted = sort_by_priority(requests);
        let ghost all = sorted@;
        let ghost m0 = old(self).table();
        let now = self.current_time;
        let total = sorted.len();
        let mut rest = sorted;
        let mut approved: usize = 0;
        let mut n: usize = 0;
        while rest.len() > 0
            invariant
                n + rest@.len() == all.len(),
                all.len() == total,
                rest@ == all.subrange(n as int, all.len() as int),
                approved <= n,
                now == self.current_time,
                self.grid == old(self).grid,
                self.current_time == old(self).current_time,
                self.vehicles_processed == old(self).vehicles_processed,
                ({
                    let p = pass(m0, all.take(n as int), now);
                    &&& self.reserved_coords@ == p.table
                    &&& self.pending_requests@ == p.retry
                    &&& approved == p.granted
                }),
            decreases rest@.len(),
        {
            let request = rest.remove(0);
            proof {
                assert(all.take(n + 1).drop_last() == all.take(n as int));
                assert(all.take(n + 1).last() == request);
            }
            if self.can_approve_request(&request) {
                reserve_path(
                    &mut self.reserved_coords,
                    &request.path_coords,
                    (request.vehicle_id, request.exit_time),
                );
                approved = approved + 1;
            } else {
                let entry_time = now.saturating_add(RETRY_DELAY_MS);
                let cells = request.path_coords.len() as u64;
                let travel: u64 = if cells <= u64::MAX / RETRY_CELL_TIME_MS {
                    cells * RETRY_CELL_TIME_MS
                } else {
                    u64::MAX
                };
                let exit_time = entry_time.saturating_add(travel);
                let updated = ReservationRequest {
                    vehicle_id: request.vehicle_id,
                    path_coords: request.path_coords,
                    entry_time,
                    exit_time,
                    priority: request.priority,
                };
                proof {
                    assert(updated == retried(request, now));
                }
                self.pending_requests.push_back(updated);
            }
            n = n + 1;
        }
        proof {
            assert(all.take(n as int) == all);
        }
        approved
    }

    /// Asks passage for vehicle `vehicle_id` heading `direction` on `route` in lane
    /// `lane`: the request covers the cells of its route, enters after the entry delay and
    /// leaves `travel_time_ms` later.
    pub fn request_intersection_passage(
        &mut self,
        vehicle_id: u32,
        direction: Direction,
        route: Route,
        lane: usize,
        travel_time_ms: u64,
        priority: u32,
    )
        requires
            old(self).layout().wf(),
            old(self).layout().path_lanes_fit(direction, route, lane),
        ensures
            final(self).pending().len() == old(self).pending().len() + 1,
            final(self).pending().drop_last() == old(self).pending(),
            ({
                let r = final(self).pending().last();
                &&& r.vehicle_id == vehicle_id
                &&& r.path_coords@ == old(self).layout().vehicle_path(direction, route, lane)
                &&& r.entry_time == capped(old(self).now() + ENTRY_DELAY_MS)
                &&& r.exit_time == capped(old(self).now() + ENTRY_DELAY_MS + travel_time_ms)
                &&& r.priority == priority
            }),
            final(self).table() == old(self).table(),
            final(self).layout() == old(self).layout(),
            final(self).now() == old(self).now(),
            final(self).processed() == old(self).processed(),
    {
        let path_coords = self.grid.calculate_vehicle_path(direction, route, lane);
        let entry_time = self.current_time.saturating_add(ENTRY_DELAY_MS);
        let exit_time = entry_time.saturating_add(travel_time_ms);
        self.pending_requests.push_back(
            ReservationRequest { vehicle_id, path_coords, entry_time, exit_time, priority },
        );
        proof {
            assert(self.pending_requests@.drop_last() == old(self).pending_requests@);
        }
    }

    /// Advances the clock by `delta_ms`, releases the reservations that have ended by
    /// then, and goes over the waiting requests; returns the number granted.
    pub fn update(&mut self, delta_ms: u64) -> (approved: usize)
        ensures
            final(self).now() == capped(old(self).now() + delta_ms),
            ({
                let p = pass(
                    keep_unselected(old(self).table(), Selection::EndedBy(final(self).now())),
                    by_priority(old(self).pending()),
                    final(self).now(),
                );
                &&& final(self).table() == p.table
                &&& final(self).pending() == p.retry
                &&& approved == p.granted
            }),
            final(self).layout() == old(self).layout(),
            final(self).processed() == old(self).processed(),
    {
        self.current_time = self.current_time.saturating_add(delta_ms);
        self.cleanup_expired_reservations();
        self.process_reservation_requests()
    }

    /// The number of vehicles processed, of reserved cells and of waiting requests.
    pub fn get_statistics(&self) -> (r: (u32, usize, usize))
        ensures
            r.0 == self.processed(),
            r.1 == self.table().len(),
            r.2 == self.pending().len(),
    {
        (self.vehicles_processed, self.reserved_coords.len(), self.pending_requests.len())
    }

    /// Whether vehicle `vehicle_id` holds any cell.
    pub fn has_reservation(&self, vehicle_id: u32) -> (r: bool)
        ensures
            r == exists|c: GridCoord| #[trigger] self.reservation(c) matches Some(v) && v.0 == vehicle_id,
    {
        let keys = keys_where(&self.reserved_coords, &Selection::HeldBy(vehicle_id));
        proof {
            if keys@.len() > 0 {
                let k = keys@[0];
                assert(keys@.contains(k));
                lemma_cell_key_bijection(key_cell(k), k);
                assert(self.reservation(key_cell(k)) matches Some(v) && v.0 == vehicle_id);
            }
            if exists|c: GridCoord| #[trigger] self.reservation(c) matches Some(v) && v.0 == vehicle_id {
                let c = choose|c: GridCoord| #[trigger] self.reservation(c) matches Some(v) && v.0 == vehicle_id;
                assert(keys@.contains(cell_key(c)));
            }
        }
        keys.len() > 0
    }
}

proof fn lemma_insert_at(s: Seq<ReservationRequest>, r: ReservationRequest, j: int)
    requires
        0 <= j <= s.len(),
        forall|k: int| 0 <= k < j ==> #[trigger] s[k].priority >= r.priority,
        j < s.len() ==> s[j].priority < r.priority,
    ensures
        insert_by_priority(s, r) == s.insert(j, r),
    decreases s.len(),
{
    if s.len() == 0 {
        assert(s.insert(j, r) =~= seq![r]);
    } else if s[0].priority < r.priority {
        assert(s.insert(j, r) =~= seq![r] + s);
    } else {
        let t = s.drop_first();
        assert forall|k: int| 0 <= k < j - 1 implies #[trigger] t[k].priority >= r.priority by {
            assert(t[k] == s[k + 1]);
        }
        lemma_insert_at(t, r, j - 1);
        assert(s.insert(j, r) =~= seq![s[0]] + t.insert(j - 1, r));
    }
}

/// `requests` ordered by priority from highest to lowest, requests of equal priority in
/// their order.
fn sort_by_priority(requests: Vec<ReservationRequest>) -> (out: Vec<ReservationRequest>)
    ensures
        out@ == by_priority(requests@),
{
    let ghost all = requests@;
    let total = requests.len();
    let mut rest = requests;
    let mut out: Vec<ReservationRequest> = Vec::new();
    let mut n: usize = 0;
    while rest.len() > 0
        invariant
            n + rest@.len() == all.len(),
            all.len() == total,
            rest@ == all.subrange(n as int, all.len() as int),
            out@ == by_priority(all.take(n as int)),
        decreases rest@.len(),
    {
        let r = rest.remove(0);
        let mut j: usize = 0;
        while j < out.len() && out[j].priority >= r.priority
            invariant
                j <= out@.len(),
                forall|k: int| 0 <= k < j ==> #[trigger] out@[k].priority >= r.priority,
            decreases out@.len() - j,
        {
            j = j + 1;
        }
        proof {
            lemma_insert_at(out@, r, j as int);
            assert(all.take(n + 1).drop_last() == all.take(n as int));
            assert(all.take(n + 1).last() == r);
        }
        out.insert(j, r);
        n = n + 1;
    }
    proof {
        assert(all.take(n as int) == all);
    }
    out
}

/// Reserves every cell of `path` as `held` in `m`.
fn reserve_path(m: &mut HashMap<u64, (u32, u64)>, path: &Vec<GridCoord>, held: (u32, u64))
    ensures
        final(m)@ == reserve_all(old(m)@, path@, held),
{
    let mut i: usize = 0;
    while i < path.len()
        invariant
            i <= path@.len(),
            m@ == reserve_all(old(m)@, path@.take(i as int), held),
        decreases path@.len() - i,
    {
        let c = path[i];
        m.insert(block_key_of(BlockPosition { x: c.x, y: c.y }), held);
        proof {
            assert(path@.take(i + 1).drop_last() == path@.take(i as int));
        }
        i = i + 1;
    }
    proof {
        assert(path@.take(path@.len() as int) == path@);
    }
}

/// Which reservations a scan of the table selects.
pub enum Selection {
    /// Those of the given vehicle.
    HeldBy(u32),
    /// Those that end at or before the given time.
    EndedBy(u64),
}

pub open spec fn selected(sel: Selection, held: (u32, u64)) -> bool {
    match sel {
        Selection::HeldBy(id) => held.0 == id,
        Selection::EndedBy(t) => held.1 <= t,
    }
}

/// The table `m` without the reservations that `sel` selects.
pub open spec fn keep_unselected(m: Map<u64, (u32, u64)>, sel: Selection) -> Map<u64, (u32, u64)> {
    Map::new(|k: u64| m.contains_key(k) && !selected(sel, m[k]), |k: u64| m[k])
}

/// The keys of the reservations of `m` that `sel` selects.
fn keys_where(m: &HashMap<u64, (u32, u64)>, sel: &Selection) -> (ks: Vec<u64>)
    ensures
        forall|k: u64| ks@.contains(k) <==> (m@.contains_key(k) && selected(*sel, m@[k])),
{
    let mut ks: Vec<u64> = Vec::new();
    for kv in it: m.iter()
        invariant
            forall|k: u64|
                ks@.contains(k) <==> exists|i: int|
                    0 <= i < it.index() && *it.seq()[i].0 == k && selected(*sel, *it.seq()[i].1),
    {
        let ghost i0 = it.index();
        assert(kv == it.seq()[i0]);
        let ghost before = ks@;
        let (k, v) = kv;
        let chosen = match sel {
            Selection::HeldBy(id) => v.0 == *id,
            Selection::EndedBy(t) => v.1 <= *t,
        };
        if chosen {
            ks.push(*k);
        }
        assert forall|q: u64|
            ks@.contains(q) <==> exists|i: int|
                0 <= i < i0 + 1 && *it.seq()[i].0 == q && selected(*sel, *it.seq()[i].1) by {
            if ks@.contains(q) {
                if !before.contains(q) {
                    assert(q == *k);
                    assert(0 <= i0 < i0 + 1 && *it.seq()[i0].0 == q && selected(*sel, *it.seq()[i0].1));
                }
            }
            if exists|i: int| 0 <= i < i0 + 1 && *it.seq()[i].0 == q && selected(*sel, *it.seq()[i].1) {
                let i = choose|i: int|
                    0 <= i < i0 + 1 && *it.seq()[i].0 == q && selected(*sel, *it.seq()[i].1);
                if i < i0 {
                    assert(before.contains(q));
                    let j = choose|j: int| 0 <= j < before.len() && before[j] == q;
                    assert(ks@[j] == q);
                } else {
                    assert(ks@ == before.push(q));
                    assert(ks@[before.len() as int] == q);
                }
            }
        }
    }
    ks
}

/// Removes the keys `ks` from `m`.
fn remove_keys(m: &mut HashMap<u64, (u32, u64)>, ks: &Vec<u64>)
    ensures
        final(m)@ == old(m)@.remove_keys(ks@.to_set()),
{
    let mut i: usize = 0;
    while i < ks.len()
        invariant
            i <= ks@.len(),
            m@ == old(m)@.remove_keys(ks@.subrange(0, i as int).to_set()),
        decreases ks@.len() - i,
    {
        let ghost before = m@;
        m.remove(&ks[i]);
        proof {
            let s0 = ks@.subrange(0, i as int);
            let s1 = ks@.subrange(0, i + 1);
            assert forall|x: u64| s1.contains(x) <==> s0.contains(x) || x == ks@[i as int] by {
                if s1.contains(x) {
                    let j = choose|j: int| 0 <= j < s1.len() && s1[j] == x;
                    if j < i {
                        assert(s0[j] == x);
                    }
                }
                if s0.contains(x) {
                    let j = choose|j: int| 0 <= j < s0.len() && s0[j] == x;
                    assert(s1[j] == x);
                }
                if x == ks@[i as int] {
                    assert(s1[i as int] == x);
                }
            }
            assert(s1.to_set() =~= s0.to_set().insert(ks@[i as int]));
            assert(m@ =~= old(m)@.remove_keys(ks@.subrange(0, i + 1).to_set()));
        }
        i = i + 1;
    }
    proof {
        assert(ks@.subrange(0, ks@.len() as int) == ks@);
    }
}

/// Reserving a path gives every cell of the path to the vehicle, until the given time,
/// and leaves every other cell as it was.
pub proof fn lemma_reserve_all(m: Map<u64, (u32, u64)>, path: Seq<GridCoord>, held: (u32, u64), c: GridCoord)
    ensures
        reservation_in(reserve_all(m, path, held), c) == if path.contains(c) {
            Some(held)
        } else {
            reservation_in(m, c)
        },
    decreases path.len(),
{
    if path.len() > 0 {
        let init = path.drop_last();
        lemma_reserve_all(m, init, held, c);
        lemma_cell_key_bijection(c, cell_key(path.last()));
        if path.contains(c) && c != path.last() {
            let j = choose|j: int| 0 <= j < path.len() && path[j] == c;
            assert(init[j] == c);
        }
        if init.contains(c) {
            let j = choose|j: int| 0 <= j < init.len() && init[j] == c;
            assert(path[j] == c);
        }
        if c == path.last() {
            assert(path[path.len() - 1] == c);
        }
    }
}

/// Once a vehicle's reservations are cleared it holds no cell.
pub proof fn lemma_cleared_vehicle_holds_nothing(
    before: SmartIntersectionManager,
    after: SmartIntersectionManager,
    vehicle_id: u32,
)
    requires
        after.table() == keep_unselected(before.table(), Selection::HeldBy(vehicle_id)),
    ensures
        !exists|c: GridCoord| #[trigger] after.reservation(c) matches Some(v) && v.0 == vehicle_id,
{
}

} // verus!
