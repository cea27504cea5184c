use vstd::prelude::*;
use std::collections::HashMap;
use crate::direction::Direction;
use crate::geometry::position::{in_intersection, Position};
use vstd::set_lib::{lemma_set_disjoint_lens, lemma_set_subset_finite};

verus! {

broadcast use vstd::std_specs::hash::group_hash_axioms;

/// Square of the distance below which two vehicles, one of them in the intersection,
/// count as a close call (a distance of 55 pixels).
pub const SAFE_DISTANCE_SQUARED: i64 = 3025;

/// Index of a side in the per-side counters.
pub open spec fn side_index(d: Direction) -> int {
    match d {
        Direction::Up => 0,
        Direction::Down => 1,
        Direction::Left => 2,
        Direction::Right => 3,
    }
}

/// Whether two vehicles with corners `p` and `q` make a close call: one of them is in the
/// intersection and they are less than the safe distance apart.
pub open spec fn is_close_call(p: (i32, i32), q: (i32, i32)) -> bool {
    let dx = q.0 - p.0;
    let dy = q.1 - p.1;
    &&& in_intersection(Position { x: p.0, y: p.1 }) || in_intersection(Position { x: q.0, y: q.1 })
    &&& dx * dx + dy * dy < SAFE_DISTANCE_SQUARED
}

/// The pair of two vehicle ids, smaller first.
pub open spec fn ordered_pair(a: usize, b: usize) -> (usize, usize) {
    if a < b {
        (a, b)
    } else {
        (b, a)
    }
}

/// Whether the entries `i < j` of `ps` form a close call counted as the pair `pair`.
pub open spec fn close_call_at(ps: Seq<(usize, (i32, i32))>, i: int, j: int, pair: (usize, usize))
    -> bool {
    &&& 0 <= i < j < ps.len()
    &&& is_close_call(ps[i].1, ps[j].1)
    &&& pair == ordered_pair(ps[i].0, ps[j].0)
}

/// The pairs of vehicles of `ps` that make a close call, among the entry pairs before
/// `(i, j)` in the order in which they are checked.
pub open spec fn close_calls_before(ps: Seq<(usize, (i32, i32))>, i: int, j: int) -> Set<
    (usize, usize),
> {
    Set::new(
        |pair: (usize, usize)|
            exists|a: int, b: int|
                #![trigger close_call_at(ps, a, b, pair)]
                close_call_at(ps, a, b, pair) && (a < i || (a == i && b < j)),
    )
}

/// The pairs of vehicles of `ps` that make a close call.
pub open spec fn close_calls(ps: Seq<(usize, (i32, i32))>) -> Set<(usize, usize)> {
    Set::new(
        |pair: (usize, usize)|
            exists|a: int, b: int| #![trigger close_call_at(ps, a, b, pair)] close_call_at(ps, a, b, pair),
    )
}

/// What the statistics know of the intersection: whether each known vehicle was last
/// seen in it, how many vehicles are in it now, and the most there ever were.
pub struct IntersectionTally {
    pub seen_inside: Map<usize, bool>,
    pub current: u32,
    pub max: u32,
}

/// The tally after vehicle `id` was seen at `position`: a known vehicle entering the
/// intersection is counted in (the count saturates at `u32::MAX`) and raises the peak if
/// needed, one leaving it is counted out; unknown vehicles change nothing.
pub open spec fn tally_seen(t: IntersectionTally, id: usize, position: Position) -> IntersectionTally {
    if !t.seen_inside.contains_key(id) {
        t
    } else if !t.seen_inside[id] && in_intersection(position) {
        let next: u32 = if t.current < u32::MAX { (t.current + 1) as u32 } else { t.current };
        IntersectionTally {
            seen_inside: t.seen_inside.insert(id, true),
            current: next,
            max: if next > t.max { next } else { t.max },
        }
    } else if t.seen_inside[id] && !in_intersection(position) {
        IntersectionTally {
            seen_inside: t.seen_inside.insert(id, false),
            current: if t.current > 0 { (t.current - 1) as u32 } else { 0 },
            max: t.max,
        }
    } else {
        t
    }
}

/// The tally after vehicle `id` left the road: if it was last seen in the intersection
/// it no longer counts there (its flag is kept).
pub open spec fn tally_exit(t: IntersectionTally, id: usize) -> IntersectionTally {
    if t.seen_inside.contains_key(id) && t.seen_inside[id] && t.current > 0 {
        IntersectionTally { current: (t.current - 1) as u32, ..t }
    } else {
        t
    }
}

/// Counters of the simulation that do not depend on the clock: vehicles spawned per
/// side, vehicles in the intersection, and close calls between distinct pairs.
pub struct Statistics {
    /// Vehicles spawned per side, in the order Up, Down, Left, Right.
    pub vehicles_spawned: Vec<u32>,
    pub total_vehicles: u32,
    pub total_close_calls: u32,
    pub current_vehicles_in_intersection: u32,
    pub max_vehicles_in_intersection: u32,
    /// Whether each known vehicle was last seen in the intersection.
    pub in_intersection: HashMap<usize, bool>,
    /// Id given to the next vehicle.
    pub vehicle_counter: usize,
    /// The pairs of vehicles counted as close calls, each once.
    pub close_call_pairs: Vec<(usize, usize)>,
}

impl Statistics {
    /// The counters agree with one another: one counter per side, one close call per
    /// recorded pair, and the peak of vehicles in the intersection is at least the
    /// present count.
    pub open spec fn wf(self) -> bool {
        &&& self.vehicles_spawned@.len() == 4
        &&& self.total_close_calls == self.close_call_pairs@.len()
        &&& self.close_call_pairs@.no_duplicates()
        &&& self.max_vehicles_in_intersection >= self.current_vehicles_in_intersection
    }

    /// The intersection part of the counters.
    pub open spec fn tally(self) -> IntersectionTally {
        IntersectionTally {
            seen_inside: self.in_intersection@,
            current: self.current_vehicles_in_intersection,
            max: self.max_vehicles_in_intersection,
        }
    }

    /// Whether one more vehicle can be counted without a counter overflowing.
    pub open spec fn can_add(self) -> bool {
        &&& self.total_vehicles < u32::MAX
        &&& self.vehicle_counter < usize::MAX
        &&& forall|i: int| 0 <= i < 4 ==> #[trigger] self.vehicles_spawned@[i] < u32::MAX
    }

    pub fn new() -> (s: Statistics)
        ensures
            s.wf(),
            s.vehicles_spawned@ == seq![0u32, 0u32, 0u32, 0u32],
            s.total_vehicles == 0,
            s.total_close_calls == 0,
            s.current_vehicles_in_intersection == 0,
            s.max_vehicles_in_intersection == 0,
            s.in_intersection@ == Map::<usize, bool>::empty(),
            s.vehicle_counter == 0,
            s.close_call_pairs@.len() == 0,
    {
        Statistics {
            vehicles_spawned: vec![0, 0, 0, 0],
            total_vehicles: 0,
            total_close_calls: 0,
            current_vehicles_in_intersection: 0,
            max_vehicles_in_intersection: 0,
            in_intersection: HashMap::new(),
            vehicle_counter: 0,
            close_call_pairs: Vec::new(),
        }
    }

    /// Whether one more vehicle can be counted without a counter overflowing.
    pub fn can_add_vehicle(&self) -> (r: bool)
        requires
            self.wf(),
        ensures
            r == self.can_add(),
    {
        self.total_vehicles < u32::MAX && self.vehicle_counter < usize::MAX
            && self.vehicles_spawned[0] < u32::MAX && self.vehicles_spawned[1] < u32::MAX
            && self.vehicles_spawned[2] < u32::MAX && self.vehicles_spawned[3] < u32::MAX
    }

    /// Number of vehicles spawned on side `direction`.
    pub fn spawned_from(&self, direction: Direction) -> (r: u32)
        requires
            self.wf(),
        ensures
            r == self.vehicles_spawned@[side_index(direction)],
    {
        let i: usize = match direction {
            Direction::Up => 0,
            Direction::Down => 1,
            Direction::Left => 2,
            Direction::Right => 3,
        };
        self.vehicles_spawned[i]
    }

    /// Counts a vehicle spawned on side `direction` and returns its id: ids are given out
    /// in order from 0.
    pub fn add_vehicle(&mut self, direction: Direction) -> (id: usize)
        requires
            old(self).wf(),
            old(self).can_add(),
        ensures
            final(self).wf(),
            id == old(self).vehicle_counter,
            final(self).vehicle_counter == old(self).vehicle_counter + 1,
            final(self).total_vehicles == old(self).total_vehicles + 1,
            final(self).vehicles_spawned@ == old(self).vehicles_spawned@.update(
                side_index(direction),
                (old(self).vehicles_spawned@[side_index(direction)] + 1) as u32,
            ),
            final(self).in_intersection@ == old(self).in_intersection@.insert(id, false),
            final(self).total_close_calls == old(self).total_close_calls,
            final(self).close_call_pairs == old(self).close_call_pairs,
            final(self).current_vehicles_in_intersection == old(
                self,
            ).current_vehicles_in_intersection,
            final(self).max_vehicles_in_intersection == old(self).max_vehicles_in_intersection,
    {
        let i: usize = match direction {
            Direction::Up => 0,
            Direction::Down => 1,
            Direction::Left => 2,
            Direction::Right => 3,
        };
        let count = self.vehicles_spawned[i];
        self.vehicles_spawned.set(i, count + 1);
        self.total_vehicles = self.total_vehicles + 1;
        let vehicle_id = self.vehicle_counter;
        self.vehicle_counter = self.vehicle_counter + 1;
        self.in_intersection.insert(vehicle_id, false);
        vehicle_id
    }

    /// Records that vehicle `vehicle_id` now stands at `position`, counting it in or out of
    /// the intersection; unknown ids are ignored.
    pub fn update_vehicle_stats(&mut self, vehicle_id: usize, position: Position)
        requires
            old(self).wf(),
        ensures
            final(self).wf(),
            final(self).tally() == tally_seen(old(self).tally(), vehicle_id, position),
            final(self).unchanged_but_intersection(*old(self)),
    {
        let was = match self.in_intersection.get(&vehicle_id) {
            Some(b) => *b,
            None => {
                return;
            },
        };
        let now_in = position.is_in_intersection();
        if !was && now_in {
            // The count saturates: it cannot pass `u32::MAX`.
            if self.current_vehicles_in_intersection < u32::MAX {
                self.current_vehicles_in_intersection = self.current_vehicles_in_intersection + 1;
            }
            if self.current_vehicles_in_intersection > self.max_vehicles_in_intersection {
                self.max_vehicles_in_intersection = self.current_vehicles_in_intersection;
            }
            self.in_intersection.insert(vehicle_id, true);
        } else if was && !now_in {
            if self.current_vehicles_in_intersection > 0 {
                self.current_vehicles_in_intersection = self.current_vehicles_in_intersection - 1;
            }
            self.in_intersection.insert(vehicle_id, false);
        }
    }

    /// Records that vehicle `vehicle_id` left the road: a vehicle that was in the
    /// intersection no longer counts there (its last-seen flag is kept).
    pub fn record_vehicle_exit(&mut self, vehicle_id: usize)
        requires
            old(self).wf(),
        ensures
            final(self).wf(),
            final(self).tally() == tally_exit(old(self).tally(), vehicle_id),
            final(self).unchanged_but_intersection(*old(self)),
            final(self).in_intersection == old(self).in_intersection,
            final(self).max_vehicles_in_intersection == old(self).max_vehicles_in_intersection,
            final(self).current_vehicles_in_intersection == if old(
                self,
            ).in_intersection@.contains_key(vehicle_id) && old(self).in_intersection@[vehicle_id]
                && old(self).current_vehicles_in_intersection > 0 {
                (old(self).current_vehicles_in_intersection - 1) as u32
            } else {
                old(self).current_vehicles_in_intersection
            },
    {
        let was = match self.in_intersection.get(&vehicle_id) {
            Some(b) => *b,
            None => false,
        };
        if was && self.current_vehicles_in_intersection > 0 {
            self.current_vehicles_in_intersection = self.current_vehicles_in_intersection - 1;
        }
    }

    /// Counts the close calls among `vehicle_positions` (id and corner of each vehicle):
    /// every pair of vehicles that make a close call is counted once over the whole
    /// simulation, so the counter grows by the number of pairs not counted before.
    pub fn check_close_calls(&mut self, vehicle_positions: &[(usize, (i32, i32))])
        requires
            old(self).wf(),
            pairs_after_check(*old(self), vehicle_positions@).len() <= u32::MAX,
        ensures
            close_calls_checked(*old(self), *final(self), vehicle_positions@),
            final(self).total_close_calls == pairs_after_check(*old(self), vehicle_positions@).len(),
    {
        add_close_calls(&mut self.close_call_pairs, vehicle_positions);
        proof {
            self.close_call_pairs@.unique_seq_to_set();
            lemma_close_calls_growth(*old(self), vehicle_positions@);
        }
        self.total_close_calls = self.close_call_pairs.len() as u32;
    }

    /// Whether counting the close calls among `vehicle_positions` keeps the counter
    /// within `u32::MAX`.
    pub fn close_calls_fit(&self, vehicle_positions: &[(usize, (i32, i32))]) -> (r: bool)
        requires
            self.wf(),
        ensures
            r == (pairs_after_check(*self, vehicle_positions@).len() <= u32::MAX),
    {
        let mut pairs: Vec<(usize, usize)> = Vec::new();
        let mut k: usize = 0;
        while k < self.close_call_pairs.len()
            invariant
                k <= self.close_call_pairs@.len(),
                pairs@ == self.close_call_pairs@.subrange(0, k as int),
            decreases self.close_call_pairs@.len() - k,
        {
            pairs.push(self.close_call_pairs[k]);
            k = k + 1;
        }
        proof {
            assert(pairs@ == self.close_call_pairs@.subrange(0, self.close_call_pairs@.len() as int));
            assert(pairs@ == self.close_call_pairs@);
        }
        add_close_calls(&mut pairs, vehicle_positions);
        proof {
            pairs@.unique_seq_to_set();
        }
        pairs.len() as u64 <= u32::MAX as u64
    }

    /// All counters but those of the intersection are those of `other`.
    pub open spec fn unchanged_but_intersection(self, other: Statistics) -> bool {
        &&& self.vehicles_spawned == other.vehicles_spawned
        &&& self.total_vehicles == other.total_vehicles
        &&& self.total_close_calls == other.total_close_calls
        &&& self.vehicle_counter == other.vehicle_counter
        &&& self.close_call_pairs == other.close_call_pairs
    }
}

/// The pairs counted as close calls once the close calls among `ps` are counted on `s`.
pub open spec fn pairs_after_check(s: Statistics, ps: Seq<(usize, (i32, i32))>) -> Set<
    (usize, usize),
> {
    s.close_call_pairs@.to_set().union(close_calls(ps))
}

/// `after` is `before` once the close calls among `ps` are counted: the pairs counted
/// are those of `before` and the close calls of `ps`, the counter grows by the pairs not
/// counted before, and the other counters are unchanged.
pub open spec fn close_calls_checked(
    before: Statistics,
    after: Statistics,
    ps: Seq<(usize, (i32, i32))>,
) -> bool {
    &&& after.wf()
    &&& after.close_call_pairs@.to_set() == pairs_after_check(before, ps)
    &&& after.total_close_calls == before.total_close_calls + close_calls(ps).difference(
        before.close_call_pairs@.to_set(),
    ).len()
    &&& after.vehicles_spawned == before.vehicles_spawned
    &&& after.total_vehicles == before.total_vehicles
    &&& after.vehicle_counter == before.vehicle_counter
    &&& after.in_intersection == before.in_intersection
    &&& after.current_vehicles_in_intersection == before.current_vehicles_in_intersection
    &&& after.max_vehicles_in_intersection == before.max_vehicles_in_intersection
}

/// Counting the close calls among the same positions twice: the first count adds the
/// pairs not counted before, the second is always within the counter's range and adds
/// nothing.
pub proof fn lemma_check_close_calls_twice(
    s: Statistics,
    s1: Statistics,
    s2: Statistics,
    ps: Seq<(usize, (i32, i32))>,
)
    requires
        s.wf(),
        close_calls_checked(s, s1, ps),
        close_calls_checked(s1, s2, ps),
    ensures
        s1.total_close_calls == s.total_close_calls + close_calls(ps).difference(
            s.close_call_pairs@.to_set(),
        ).len(),
        pairs_after_check(s1, ps).len() <= u32::MAX,
        s2.total_close_calls == s1.total_close_calls,
        s2.close_call_pairs@.to_set() == s1.close_call_pairs@.to_set(),
{
    lemma_close_calls_counted_once(s1, ps);
}

/// Among finitely many vehicles there are finitely many close calls.
proof fn lemma_close_calls_finite(ps: Seq<(usize, (i32, i32))>)
    ensures
        close_calls(ps).finite(),
    decreases ps.len(),
{
    if ps.len() == 0 {
        assert(close_calls(ps) =~= Set::<(usize, usize)>::empty());
    } else {
        let n = ps.len() as int;
        let init = ps.drop_last();
        lemma_close_calls_finite(init);
        let with_last = Seq::new((n - 1) as nat, |a: int| ordered_pair(ps[a].0, ps[n - 1].0));
        let bigger = close_calls(init).union(with_last.to_set());
        assert forall|q: (usize, usize)| close_calls(ps).contains(q) implies bigger.contains(q) by {
            let (a, b) = choose|a: int, b: int| #![trigger close_call_at(ps, a, b, q)]
                close_call_at(ps, a, b, q);
            if b < n - 1 {
                assert(close_call_at(init, a, b, q));
            } else {
                assert(with_last[a] == q);
            }
        }
        lemma_set_subset_finite(bigger, close_calls(ps));
    }
}

/// Counting the close calls among `ps` on `s` adds exactly the pairs not counted before.
proof fn lemma_close_calls_growth(s: Statistics, ps: Seq<(usize, (i32, i32))>)
    requires
        s.wf(),
    ensures
        pairs_after_check(s, ps).finite(),
        pairs_after_check(s, ps).len() == s.total_close_calls + close_calls(ps).difference(
            s.close_call_pairs@.to_set(),
        ).len(),
{
    let old_set = s.close_call_pairs@.to_set();
    let fresh = close_calls(ps).difference(old_set);
    lemma_close_calls_finite(ps);
    s.close_call_pairs@.unique_seq_to_set();
    assert(pairs_after_check(s, ps) =~= old_set + fresh);
    assert(old_set.disjoint(fresh));
    lemma_set_disjoint_lens(old_set, fresh);
}

/// Once the close calls among `ps` are counted, counting them again adds nothing and is
/// always within the counter's range: every pair of vehicles is counted once over the
/// whole simulation.
pub proof fn lemma_close_calls_counted_once(counted: Statistics, ps: Seq<(usize, (i32, i32))>)
    requires
        counted.wf(),
        close_calls(ps).subset_of(counted.close_call_pairs@.to_set()),
    ensures
        pairs_after_check(counted, ps) == counted.close_call_pairs@.to_set(),
        pairs_after_check(counted, ps).len() == counted.total_close_calls,
        pairs_after_check(counted, ps).len() <= u32::MAX,
        close_calls(ps).difference(counted.close_call_pairs@.to_set()).len() == 0,
{
    assert(pairs_after_check(counted, ps) =~= counted.close_call_pairs@.to_set());
    assert(close_calls(ps).difference(counted.close_call_pairs@.to_set()) =~= Set::<
        (usize, usize),
    >::empty());
    counted.close_call_pairs@.unique_seq_to_set();
}

/// Adds to `pairs` every pair of vehicles of `vehicle_positions` that make a close call,
/// in the order in which the entries are checked, each pair once.
fn add_close_calls(pairs: &mut Vec<(usize, usize)>, vehicle_positions: &[(usize, (i32, i32))])
    requires
        old(pairs)@.no_duplicates(),
    ensures
        final(pairs)@.no_duplicates(),
        final(pairs)@.to_set() == old(pairs)@.to_set().union(close_calls(vehicle_positions@)),
{
    let ghost ps = vehicle_positions@;
    let ghost old_set = pairs@.to_set();
    let n = vehicle_positions.len();
    let mut i: usize = 0;
    proof {
        assert(close_calls_before(ps, 0, 1) == Set::<(usize, usize)>::empty());
        assert(old_set.union(close_calls_before(ps, 0, 1)) == old_set);
    }
    while i < n
        invariant
            ps == vehicle_positions@,
            n == ps.len(),
            i <= n,
            pairs@.no_duplicates(),
            old_set == old(pairs)@.to_set(),
            pairs@.to_set() == old_set.union(close_calls_before(ps, i as int, i + 1)),
        decreases n - i,
    {
        let (id1, pos1) = vehicle_positions[i];
        let mut j: usize = i + 1;
        while j < n
            invariant
                ps == vehicle_positions@,
                n == ps.len(),
                i < n,
                i + 1 <= j <= n,
                (id1, pos1) == ps[i as int],
                pairs@.no_duplicates(),
                old_set == old(pairs)@.to_set(),
                pairs@.to_set() == old_set.union(close_calls_before(ps, i as int, j as int)),
            decreases n - j,
        {
            let (id2, pos2) = vehicle_positions[j];
            let p1 = Position { x: pos1.0, y: pos1.1 };
            let p2 = Position { x: pos2.0, y: pos2.1 };
            let close = if !p1.is_in_intersection() && !p2.is_in_intersection() {
                false
            } else {
                let dx: i128 = pos2.0 as i128 - pos1.0 as i128;
                let dy: i128 = pos2.1 as i128 - pos1.1 as i128;
                proof {
                    assert(dx * dx <= 0x1_0000_0000_0000_0000) by (nonlinear_arith)
                        requires
                            -0x1_0000_0000 <= dx <= 0x1_0000_0000,
                    ;
                    assert(dy * dy <= 0x1_0000_0000_0000_0000) by (nonlinear_arith)
                        requires
                            -0x1_0000_0000 <= dy <= 0x1_0000_0000,
                    ;
                    assert(dx * dx >= 0 && dy * dy >= 0) by (nonlinear_arith);
                }
                dx * dx + dy * dy < SAFE_DISTANCE_SQUARED as i128
            };
            let pair = if id1 < id2 {
                (id1, id2)
            } else {
                (id2, id1)
            };
            proof {
                assert(close == is_close_call(ps[i as int].1, ps[j as int].1));
            }
            if close {
                insert_pair(pairs, pair);
            }
            proof {
                let next = close_calls_before(ps, i as int, j + 1);
                assert forall|q: (usize, usize)|
                    next.contains(q) <==> (close_calls_before(ps, i as int, j as int).contains(q)
                        || (close && q == pair)) by {
                    if close && q == pair {
                        assert(close_call_at(ps, i as int, j as int, q));
                    }
                    if next.contains(q) {
                        let (a, b) = choose|a: int, b: int| #![trigger close_call_at(ps, a, b, q)]
                            close_call_at(ps, a, b, q) && (a < i || (a == i && b < j + 1));
                        if !(a < i || (a == i && b < j)) {
                            assert(a == i && b == j);
                        }
                    }
                }
                assert(pairs@.to_set() == old_set.union(next));
            }
            j = j + 1;
        }
        proof {
            assert forall|q: (usize, usize)|
                close_calls_before(ps, i as int, n as int).contains(q) <==> close_calls_before(
                    ps,
                    i + 1,
                    i + 2,
                ).contains(q) by {
                if close_calls_before(ps, i + 1, i + 2).contains(q) {
                    let (a, b) = choose|a: int, b: int| #![trigger close_call_at(ps, a, b, q)]
                        close_call_at(ps, a, b, q) && (a < i + 1 || (a == i + 1 && b < i + 2));
                    assert(close_call_at(ps, a, b, q) && (a < i || (a == i && b < n)));
                }
            }
            assert(close_calls_before(ps, i as int, n as int) == close_calls_before(ps, i + 1, i + 2));
        }
        i = i + 1;
    }
    proof {
        assert forall|q: (usize, usize)|
            close_calls(ps).contains(q) <==> close_calls_before(ps, n as int, n + 1).contains(q) by {
            if close_calls(ps).contains(q) {
                let (a, b) = choose|a: int, b: int| #![trigger close_call_at(ps, a, b, q)]
                    close_call_at(ps, a, b, q);
                assert(close_call_at(ps, a, b, q) && (a < n || (a == n && b < n + 1)));
            }
        }
        assert(close_calls(ps) == close_calls_before(ps, n as int, n + 1));
    }
}

/// Adds `pair` to `pairs` unless it is there.
fn insert_pair(pairs: &mut Vec<(usize, usize)>, pair: (usize, usize))
    requires
        old(pairs)@.no_duplicates(),
    ensures
        final(pairs)@.no_duplicates(),
        final(pairs)@.to_set() == old(pairs)@.to_set().insert(pair),
{
    let mut k: usize = 0;
    while k < pairs.len()
        invariant
            k <= pairs@.len(),
            *pairs == *old(pairs),
            pairs@.no_duplicates(),
            forall|m: int| 0 <= m < k ==> pairs@[m] != pair,
        decreases pairs@.len() - k,
    {
        let q = pairs[k];
        if q.0 == pair.0 && q.1 == pair.1 {
            proof {
                assert(pairs@.to_set() == pairs@.to_set().insert(pair));
            }
            return;
        }
        k = k + 1;
    }
    let ghost before = pairs@;
    pairs.push(pair);
    proof {
        assert(pairs@.to_set() =~= before.to_set().insert(pair)) by {
            assert forall|q: (usize, usize)|
                #[trigger] pairs@.to_set().contains(q) <==> before.to_set().insert(pair).contains(q) by {
                if pairs@.contains(q) {
                    let m = choose|m: int| 0 <= m < pairs@.len() && pairs@[m] == q;
                    if m < before.len() {
                        assert(before[m] == q);
                    }
                }
                if before.contains(q) {
                    let m = choose|m: int| 0 <= m < before.len() && before[m] == q;
                    assert(pairs@[m] == q);
                }
                if q == pair {
                    assert(pairs@[before.len() as int] == q);
                }
            }
        }
    }
}

} // verus!
