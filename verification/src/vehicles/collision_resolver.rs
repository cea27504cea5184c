use vstd::prelude::*;
use crate::direction::{updated_direction, Direction};
use crate::geometry::position::{
    after_turn, can_move, in_intersection, manhattan, moved, Position, TimedPosition,
};
use crate::geometry::rect::{clamped_position, intervals_overlap, Rect};
use crate::vehicles::vehicle_data::Vehicle;

verus! {

/// Why a collision could not be resolved by delaying the path. Each is a case in which
/// the delay cannot be carried out, reported to the caller instead of stopping the
/// simulation.
#[derive(Debug, Clone, Copy, PartialEq, Eq, Structural)]
pub enum ResolveError {
    /// The slack accumulated from the end of the path jumps past the needed delay.
    StepsOvershoot,
    /// The path ends before the delay or the replay fits into it.
    PathTooShort,
    /// The replay reaches the clear position before the last entry of the path.
    WalkMismatch,
    /// A replayed step leaves the range of `i32`.
    PositionOverflow,
}

/// Whether a `w` by `h` vehicle with its corner at `p` overlaps `other`.
pub open spec fn collides_at(w: int, h: int, p: Position, other: Rect) -> bool {
    &&& intervals_overlap(other.left(), other.spec_width(), clamped_position(p.x), w)
    &&& intervals_overlap(other.top(), other.spec_height(), clamped_position(p.y), h)
}

/// The latest position of `path` at which the vehicle is clear of `other`; the first
/// position when every position collides.
pub open spec fn non_colliding_position(w: int, h: int, path: Seq<TimedPosition>, other: Rect)
    -> Position
    decreases path.len(),
{
    if path.len() <= 1 {
        path[0].position
    } else if !collides_at(w, h, path.last().position, other) {
        path.last().position
    } else {
        non_colliding_position(w, h, path.drop_last(), other)
    }
}

/// Slack between entries `i` and `i + 1`: the pixels skipped beyond one per tick.
pub open spec fn gap(path: Seq<TimedPosition>, i: int) -> int {
    let d = manhattan(path[i].position, path[i + 1].position);
    if d > 1 {
        d - 1
    } else {
        0
    }
}

/// Total slack from entry `i` to the end of the path.
pub open spec fn slack_from(path: Seq<TimedPosition>, i: int) -> int
    decreases path.len() - i,
{
    if i < 0 || i >= path.len() - 1 {
        0
    } else {
        gap(path, i) + slack_from(path, i + 1)
    }
}

/// Outcome of scanning the path backwards for the point from which `steps` pixels of
/// slack lie ahead.
pub enum SlackScan {
    Exact(int),
    Overshoot,
    NotReached,
}

pub open spec fn scan_slack(path: Seq<TimedPosition>, steps: int, i: int) -> SlackScan
    decreases i + 1,
{
    if i < 0 {
        SlackScan::NotReached
    } else if slack_from(path, i) == steps {
        SlackScan::Exact(i)
    } else if slack_from(path, i) > steps {
        SlackScan::Overshoot
    } else {
        scan_slack(path, steps, i - 1)
    }
}

/// The last index at most `j` whose position is that of the first entry.
pub open spec fn last_start_index(path: Seq<TimedPosition>, j: int) -> int
    decreases j,
{
    if j <= 0 {
        0
    } else if path[j].position == path[0].position {
        j
    } else {
        last_start_index(path, j - 1)
    }
}

/// The index from which the path is rewritten to absorb a delay of `steps` pixels.
pub open spec fn restart_index(path: Seq<TimedPosition>, steps: int) -> int {
    match scan_slack(path, steps, path.len() - 2) {
        SlackScan::Exact(i) => i,
        _ => last_start_index(path, path.len() - 1),
    }
}

/// Ticks of waiting on the first position needed before the replay: none when the path
/// holds exactly `steps` pixels of slack from some entry on, else what the whole path
/// lacks.
pub open spec fn pad_len(path: Seq<TimedPosition>, steps: int) -> int {
    match scan_slack(path, steps, path.len() - 2) {
        SlackScan::Exact(_) => 0,
        _ => steps - slack_from(path, 0),
    }
}

/// The heading of vehicle `v` standing at `p`: its exit heading once on its turning line,
/// else its start heading.
pub open spec fn heading_at(v: Vehicle, p: Position) -> Direction {
    if after_turn(p, v.turn_position) {
        v.target_direction
    } else {
        v.start_direction
    }
}

/// Position and heading after `k` one-pixel steps along the route from `p0` heading
/// `d0`, turning to `target` on the turning line `turn`.
pub open spec fn walk(
    p0: Position,
    d0: Direction,
    target: Direction,
    turn: (Option<i32>, Option<i32>),
    k: nat,
) -> (Position, Direction)
    decreases k,
{
    if k == 0 {
        (p0, d0)
    } else {
        let prev = walk(p0, d0, target, turn, (k - 1) as nat);
        let p = moved(prev.0, prev.1, 1);
        (p, updated_direction(prev.1, target, p, turn))
    }
}

/// How a replay that stands at `pos` heading `dir`, about to write entry `fix` of a path
/// of `len` entries, ends.
pub enum ReplayEnd {
    /// It reaches `goal` on the last entry.
    Done,
    /// It runs out of entries before reaching `goal`.
    TooShort,
    /// A step would leave the range of `i32`.
    Overflow,
    /// It reaches `goal` before the last entry.
    Mismatch,
}

pub open spec fn replay_end(
    pos: Position,
    dir: Direction,
    target: Direction,
    turn: (Option<i32>, Option<i32>),
    goal: Position,
    fix: int,
    len: int,
) -> ReplayEnd
    decreases len - fix,
{
    if pos == goal {
        if fix == len - 1 {
            ReplayEnd::Done
        } else {
            ReplayEnd::Mismatch
        }
    } else if fix >= len {
        ReplayEnd::TooShort
    } else if !can_move(pos, dir, 1) {
        ReplayEnd::Overflow
    } else {
        let p = moved(pos, dir, 1);
        replay_end(p, updated_direction(dir, target, p, turn), target, turn, goal, fix + 1, len)
    }
}

/// The tick of the last entry in `[lo, hi)` whose replayed position (the walk from `p0`,
/// started at entry `lo`) lies in the intersection; the last tick of the path if none.
pub open spec fn replay_tick(
    path: Seq<TimedPosition>,
    p0: Position,
    d0: Direction,
    target: Direction,
    turn: (Option<i32>, Option<i32>),
    lo: int,
    hi: int,
) -> u64
    decreases hi - lo,
{
    if hi <= lo {
        path.last().time
    } else if in_intersection(walk(p0, d0, target, turn, (hi - 1 - lo) as nat).0) {
        path[hi - 1].time
    } else {
        replay_tick(path, p0, d0, target, turn, lo, hi - 1)
    }
}

/// What `resolve_collision` returns for vehicle `v` with planned path `path` (not empty),
/// standing at `current` where it overlaps `other`, away from the latest clear position.
pub open spec fn resolve_outcome(v: Vehicle, path: Seq<TimedPosition>, current: Position, other: Rect)
    -> Result<u64, ResolveError> {
    let goal = non_colliding_position(v.rect.spec_width(), v.rect.spec_height(), path, other);
    let steps = manhattan(current, goal);
    if scan_slack(path, steps, path.len() - 2) is Overshoot {
        Err(ResolveError::StepsOvershoot)
    } else {
        let r = restart_index(path, steps);
        let base = r + pad_len(path, steps);
        let p0 = path[r].position;
        let d0 = heading_at(v, p0);
        if base > path.len() {
            Err(ResolveError::PathTooShort)
        } else {
            match replay_end(p0, d0, v.target_direction, v.turn_position, goal, base, path.len() as int) {
                ReplayEnd::Done => Ok(
                    replay_tick(path, p0, d0, v.target_direction, v.turn_position, base, path.len() - 1),
                ),
                ReplayEnd::TooShort => Err(ResolveError::PathTooShort),
                ReplayEnd::Overflow => Err(ResolveError::PositionOverflow),
                ReplayEnd::Mismatch => Err(ResolveError::WalkMismatch),
            }
        }
    }
}

/// The path after a successful `resolve_collision`: entries before the restart index as
/// they were, then the first position for the ticks of waiting, then the route replayed
/// one pixel per tick from the restart entry's position up to the clear position on the
/// last entry; every tick as it was.
pub open spec fn resolved_path(v: Vehicle, path: Seq<TimedPosition>, current: Position, other: Rect)
    -> Seq<TimedPosition> {
    let goal = non_colliding_position(v.rect.spec_width(), v.rect.spec_height(), path, other);
    let steps = manhattan(current, goal);
    let r = restart_index(path, steps);
    let base = r + pad_len(path, steps);
    let p0 = path[r].position;
    let d0 = heading_at(v, p0);
    Seq::new(
        path.len(),
        |i: int|
            TimedPosition {
                position: if i < r {
                    path[i].position
                } else if i < base {
                    path[0].position
                } else {
                    walk(p0, d0, v.target_direction, v.turn_position, (i - base) as nat).0
                },
                time: path[i].time,
            },
    )
}

proof fn lemma_non_colliding_in_path(w: int, h: int, path: Seq<TimedPosition>, other: Rect)
    requires
        path.len() > 0,
    ensures
        exists|k: int|
            0 <= k < path.len() && #[trigger] path[k].position == non_colliding_position(
                w,
                h,
                path,
                other,
            ),
        !collides_at(w, h, non_colliding_position(w, h, path, other), other) || forall|k: int|
            0 <= k < path.len() ==> collides_at(w, h, #[trigger] path[k].position, other),
        collides_at(w, h, non_colliding_position(w, h, path, other), other)
            ==> non_colliding_position(w, h, path, other) == path[0].position,
    decreases path.len(),
{
    if path.len() <= 1 {
        assert(path[0].position == non_colliding_position(w, h, path, other));
    } else if !collides_at(w, h, path.last().position, other) {
        assert(path[path.len() - 1].position == non_colliding_position(w, h, path, other));
    } else {
        let p = path.drop_last();
        lemma_non_colliding_in_path(w, h, p, other);
        assert(p[0] == path[0]);
        let k = choose|k: int|
            0 <= k < p.len() && #[trigger] p[k].position == non_colliding_position(w, h, p, other);
        assert(path[k].position == non_colliding_position(w, h, path, other));
        if collides_at(w, h, non_colliding_position(w, h, path, other), other) {
            assert forall|k: int| 0 <= k < path.len() implies collides_at(
                w,
                h,
                #[trigger] path[k].position,
                other,
            ) by {
                if k < path.len() - 1 {
                    assert(p[k] == path[k]);
                }
            }
        }
    }
}

/// A vehicle that overlaps `other` at the end of its path, away from the path's first
/// position, is not on the latest clear position.
pub(crate) proof fn lemma_current_not_clear(
    w: int,
    h: int,
    path: Seq<TimedPosition>,
    current: Position,
    other: Rect,
)
    requires
        path.len() > 0,
        current != path[0].position,
        collides_at(w, h, current, other),
    ensures
        current != non_colliding_position(w, h, path, other),
{
    lemma_non_colliding_in_path(w, h, path, other);
}

proof fn lemma_slack_monotone(path: Seq<TimedPosition>, i: int)
    requires
        0 <= i < path.len() - 1,
    ensures
        slack_from(path, i) >= slack_from(path, i + 1),
        slack_from(path, i + 1) >= 0,
    decreases path.len() - i,
{
    if i + 1 < path.len() - 1 {
        lemma_slack_monotone(path, i + 1);
    }
}

proof fn lemma_last_start_index_bounds(path: Seq<TimedPosition>, j: int)
    requires
        0 <= j < path.len(),
    ensures
        0 <= last_start_index(path, j) <= j,
    decreases j,
{
    if j > 0 && path[j].position != path[0].position {
        lemma_last_start_index_bounds(path, j - 1);
    }
}

proof fn lemma_scan_exact_bounds(path: Seq<TimedPosition>, steps: int, i: int)
    requires
        i < path.len() - 1,
    ensures
        scan_slack(path, steps, i) matches SlackScan::Exact(k) ==> 0 <= k <= i,
    decreases i + 1,
{
    if i >= 0 && slack_from(path, i) < steps {
        lemma_scan_exact_bounds(path, steps, i - 1);
    }
}

/// Delays a path so that it no longer runs into another vehicle.
pub struct CollisionResolver;

impl CollisionResolver {
    /// Rewrites the end of `path` so that the vehicle, instead of reaching
    /// `current_position` where it would overlap `other_vehicle_rect`, ends the path on
    /// the latest clear position: from the restart index it waits on the first position
    /// to use up slack the path cannot absorb, then replays the route one pixel per tick.
    /// Returns the tick of the last replayed entry inside the intersection (the last tick
    /// of the path if there is none), from which the path must be checked again.
    pub fn resolve_collision(
        vehicle: &Vehicle,
        path: &mut Vec<TimedPosition>,
        current_position: &Position,
        other_vehicle_rect: &Rect,
    ) -> (r: Result<u64, ResolveError>)
        requires
            old(path)@.len() > 0,
            *current_position != non_colliding_position(
                vehicle.rect.spec_width(),
                vehicle.rect.spec_height(),
                old(path)@,
                *other_vehicle_rect,
            ),
        ensures
            final(path)@.len() == old(path)@.len(),
            forall|i: int|
                0 <= i < old(path)@.len() ==> #[trigger] final(path)@[i].time == old(path)@[i].time,
            r == resolve_outcome(*vehicle, old(path)@, *current_position, *other_vehicle_rect),
            r is Ok ==> final(path)@ == resolved_path(*vehicle, old(path)@, *current_position,
                *other_vehicle_rect),
            ({
                let w = vehicle.rect.spec_width();
                let h = vehicle.rect.spec_height();
                let target = non_colliding_position(w, h, old(path)@, *other_vehicle_rect);
                let steps = manhattan(*current_position, target);
                &&& steps != 0
                &&& (r == Err::<u64, ResolveError>(
                    ResolveError::StepsOvershoot) <==> scan_slack(old(path)@, steps,
                    old(path)@.len() - 2) is Overshoot)
                &&& r is Ok ==> {
                    &&& final(path)@.last().position == target
                    &&& steps != 0
                    &&& !collides_at(w, h, target, *other_vehicle_rect) || forall|k: int|
                        0 <= k < old(path)@.len() ==> collides_at(w, h,
                        #[trigger] old(path)@[k].position, *other_vehicle_rect)
                    &&& forall|i: int|
                        0 <= i < restart_index(old(path)@, steps) ==> #[trigger] final(path)@[i]
                            == old(path)@[i]
                    &&& exists|k: int|
                        0 <= k < final(path)@.len() && #[trigger] final(path)@[k].time == r->Ok_0
                }
            }),
    {
        let ghost old_path = path@;
        let ghost w = vehicle.rect.spec_width();
        let ghost h = vehicle.rect.spec_height();
        let new_position = Self::find_non_colliding_position(vehicle, path, other_vehicle_rect);
        proof {
            lemma_non_colliding_in_path(w, h, old_path, *other_vehicle_rect);
        }
        let steps = current_position.calculate_steps_to(&new_position);
        assert(steps != 0);
        let (mut fix_index, mut reached_steps) = match Self::find_position(path, steps) {
            Ok(found) => found,
            Err(e) => {
                return Err(e);
            },
        };
        let ghost start = fix_index as int;
        let ghost base = start + pad_len(old_path, steps as int);
        let ghost reached0 = reached_steps as int;
        let len = path.len();
        let mut tmp_position = path[fix_index].position;
        let mut current_direction = if tmp_position.is_after_turn(&vehicle.turn_position) {
            vehicle.target_direction
        } else {
            vehicle.start_direction
        };
        let ghost p0 = tmp_position;
        let ghost d0 = current_direction;
        let ghost tgt = vehicle.target_direction;
        let ghost turn = vehicle.turn_position;
        assert(p0 == old_path[start].position);
        assert(d0 == heading_at(*vehicle, p0));
        let mut collision_time_index = path[len - 1].time;
        let ghost mut time_index: int = len - 1;
        if reached_steps != steps {
            let first_position = path[0].position;
            while reached_steps < steps
                invariant
                    path@.len() == len,
                    len == old_path.len(),
                    old_path == old(path)@,
                    first_position == old_path[0].position,
                    w == vehicle.rect.spec_width(),
                    h == vehicle.rect.spec_height(),
                    new_position == non_colliding_position(w, h, old_path, *other_vehicle_rect),
                    steps == manhattan(*current_position, new_position),
                    steps != 0,
                    !(scan_slack(old_path, steps as int, old_path.len() - 2) is Overshoot),
                    start == restart_index(old_path, steps as int),
                    base == start + pad_len(old_path, steps as int),
                    steps - reached0 == pad_len(old_path, steps as int),
                    reached0 <= reached_steps <= steps,
                    fix_index == start + (reached_steps - reached0),
                    fix_index <= len,
                    0 <= start < len,
                    forall|i: int| 0 <= i < len ==> #[trigger] path@[i].time == old_path[i].time,
                    forall|i: int| 0 <= i < start ==> #[trigger] path@[i] == old_path[i],
                    forall|i: int| start <= i < fix_index ==> #[trigger] path@[i].position == old_path[0].position,
                    forall|i: int| fix_index <= i < len ==> #[trigger] path@[i] == old_path[i],
                    0 <= time_index < len,
                    time_index == len - 1,
                    collision_time_index == old_path[len - 1].time,
                decreases steps - reached_steps,
            {
                if fix_index >= len {
                    return Err(ResolveError::PathTooShort);
                }
                let ghost prev = path@;
                let ghost at = fix_index as int;
                path.set(fix_index, TimedPosition { position: first_position, time: path[fix_index].time });
                reached_steps = reached_steps + 1;
                fix_index = fix_index + 1;
                proof {
                    assert(path@ == prev.update(at, TimedPosition { position: first_position, time: prev[at].time }));
                    assert forall|i: int| start <= i < fix_index implies #[trigger] path@[i].position
                        == old_path[0].position by {
                        if i < at {
                            assert(path@[i] == prev[i]);
                        }
                    }
                    assert forall|i: int| fix_index <= i < len implies #[trigger] path@[i] == old_path[i] by {
                        assert(path@[i] == prev[i]);
                    }
                    assert forall|i: int| 0 <= i < start implies #[trigger] path@[i] == old_path[i] by {
                        assert(path@[i] == prev[i]);
                    }
                }
            }
        }
        assert(fix_index == base);
        assert(forall|i: int| start <= i < fix_index ==> #[trigger] path@[i].position == old_path[0].position);
        while tmp_position != new_position
            invariant
                path@.len() == len,
                len == old_path.len(),
                old_path == old(path)@,
                w == vehicle.rect.spec_width(),
                h == vehicle.rect.spec_height(),
                tgt == vehicle.target_direction,
                turn == vehicle.turn_position,
                new_position == non_colliding_position(w, h, old_path, *other_vehicle_rect),
                steps == manhattan(*current_position, new_position),
                steps != 0,
                !(scan_slack(old_path, steps as int, old_path.len() - 2) is Overshoot),
                start == restart_index(old_path, steps as int),
                base == start + pad_len(old_path, steps as int),
                0 <= start <= base <= fix_index,
                base <= len,
                p0 == old_path[start].position,
                d0 == heading_at(*vehicle, p0),
                (tmp_position, current_direction) == walk(p0, d0, tgt, turn, (fix_index - base) as nat),
                replay_end(tmp_position, current_direction, tgt, turn, new_position, fix_index as int, len as int)
                    == replay_end(p0, d0, tgt, turn, new_position, base, len as int),
                forall|i: int| 0 <= i < len ==> #[trigger] path@[i].time == old_path[i].time,
                forall|i: int| 0 <= i < start ==> #[trigger] path@[i] == old_path[i],
                forall|i: int| start <= i < base ==> #[trigger] path@[i].position == old_path[0].position,
                forall|i: int| base <= i < fix_index ==> #[trigger] path@[i].position == walk(p0, d0, tgt, turn, (i - base) as nat).0,
                forall|i: int| fix_index <= i < len ==> #[trigger] path@[i] == old_path[i],
                0 <= time_index < len,
                collision_time_index == path@[time_index].time,
                collision_time_index == replay_tick(old_path, p0, d0, tgt, turn, base, fix_index as int),
            decreases len - fix_index,
        {
            if fix_index >= len {
                assert(replay_end(tmp_position, current_direction, tgt, turn, new_position,
                    fix_index as int, len as int) == ReplayEnd::TooShort);
                return Err(ResolveError::PathTooShort);
            }
            let t = path[fix_index].time;
            let ghost k = (fix_index - base) as nat;
            let ghost prev = path@;
            let ghost at = fix_index as int;
            path.set(fix_index, TimedPosition { position: tmp_position, time: t });
            proof {
                assert(path@ == prev.update(at, TimedPosition { position: tmp_position, time: t }));
                assert forall|i: int| base <= i < at + 1 implies #[trigger] path@[i].position
                    == walk(p0, d0, tgt, turn, (i - base) as nat).0 by {
                    if i < at {
                        assert(path@[i] == prev[i]);
                    }
                }
                assert forall|i: int| at + 1 <= i < len implies #[trigger] path@[i] == old_path[i] by {
                    assert(path@[i] == prev[i]);
                }
                assert forall|i: int| 0 <= i < start implies #[trigger] path@[i] == old_path[i] by {
                    assert(path@[i] == prev[i]);
                }
                assert forall|i: int| start <= i < base implies #[trigger] path@[i].position
                    == old_path[0].position by {
                    assert(path@[i] == prev[i]);
                }
            }
            if tmp_position.is_in_intersection() {
                collision_time_index = t;
                proof {
                    time_index = fix_index as int;
                }
            }
            if !Self::can_step(&tmp_position, &current_direction) {
                assert(replay_end(tmp_position, current_direction, tgt, turn, new_position,
                    fix_index as int, len as int) == ReplayEnd::Overflow);
                return Err(ResolveError::PositionOverflow);
            }
            tmp_position = tmp_position.move_in_direction(&current_direction, 1);
            current_direction.update_direction(
                &vehicle.target_direction,
                &tmp_position,
                &vehicle.turn_position,
            );
            fix_index = fix_index + 1;
            proof {
                assert((fix_index - base) as nat == k + 1);
            }
        }
        if fix_index != len - 1 {
            return Err(ResolveError::WalkMismatch);
        }
        let t = path[fix_index].time;
        let ghost prev = path@;
        path.set(fix_index, TimedPosition { position: tmp_position, time: t });
        assert(path@[len - 1].position == new_position);
        proof {
            let rp = resolved_path(*vehicle, old_path, *current_position, *other_vehicle_rect);
            assert(path@ == prev.update(len - 1, TimedPosition { position: tmp_position, time: t }));
            assert(restart_index(old_path, steps as int) == start);
            assert(start + pad_len(old_path, steps as int) == base);
            assert(rp.len() == len);
            assert(old_path[start].position == p0);
            assert forall|i: int| 0 <= i < len implies #[trigger] path@[i] == rp[i] by {
                assert(rp[i].time == old_path[i].time);
                assert(path@[i].time == old_path[i].time);
                if i < len - 1 {
                    assert(path@[i] == prev[i]);
                    if i < start {
                        assert(rp[i].position == old_path[i].position);
                    } else if i < base {
                        assert(rp[i].position == old_path[0].position);
                        assert(path@[i].position == old_path[0].position);
                    } else {
                        assert(rp[i].position == walk(p0, d0, tgt, turn, (i - base) as nat).0);
                        assert(prev[i].position == walk(p0, d0, tgt, turn, (i - base) as nat).0);
                    }
                } else {
                    assert((tmp_position, current_direction) == walk(p0, d0, tgt, turn, (fix_index - base) as nat));
                }
            }
        }
        assert(path@[time_index].time == collision_time_index);
        proof {
            lemma_non_colliding_in_path(w, h, old_path, *other_vehicle_rect);
            assert(path@ =~= resolved_path(*vehicle, old_path, *current_position, *other_vehicle_rect));
        }
        Ok(collision_time_index)
    }

    /// Whether a one-pixel step from `p` in `d` stays within the range of `i32`.
    fn can_step(p: &Position, d: &Direction) -> (r: bool)
        ensures
            r == can_move(*p, *d, 1),
    {
        match d {
            Direction::Up => p.y > i32::MIN,
            Direction::Down => p.y < i32::MAX,
            Direction::Left => p.x > i32::MIN,
            Direction::Right => p.x < i32::MAX,
        }
    }

    /// The index from which the path is rewritten and the slack found ahead of it: the
    /// latest index with exactly `steps` pixels of slack ahead; when the whole path holds
    /// less, the last index still on the first position, with all the slack there is.
    fn find_position(path: &Vec<TimedPosition>, steps: u64) -> (r: Result<(usize, u64), ResolveError>)
        requires
            path@.len() > 0,
            0 < steps <= 0x4_0000_0000u64,
        ensures
            r is Err <==> scan_slack(path@, steps as int, path@.len() - 2) is Overshoot,
            r is Err ==> r == Err::<(usize, u64), ResolveError>(ResolveError::StepsOvershoot),
            r matches Ok((i, reached)) ==> {
                &&& i == restart_index(path@, steps as int)
                &&& i < path@.len()
                &&& reached <= steps
                &&& (reached == steps <==> scan_slack(path@, steps as int, path@.len() - 2) is Exact)
                &&& steps - reached == pad_len(path@, steps as int)
                &&& !(scan_slack(path@, steps as int, path@.len() - 2) is Exact) ==> reached
                    == slack_from(path@, 0)
            },
    {
        let len = path.len();
        let mut reached_steps: u64 = 0;
        let mut next_position = path[len - 1].position;
        let mut index: usize = len - 1;
        proof {
            assert(slack_from(path@, len - 1) == 0);
        }
        while index > 0
            invariant
                0 <= index < len,
                len == path@.len(),
                reached_steps == slack_from(path@, index as int),
                reached_steps < steps,
                steps <= 0x4_0000_0000u64,
                next_position == path@[index as int].position,
                scan_slack(path@, steps as int, len - 2) == scan_slack(path@, steps as int, index - 1),
            decreases index,
        {
            let i = index - 1;
            let dx: i64 = next_position.x as i64 - path[i].position.x as i64;
            let dy: i64 = next_position.y as i64 - path[i].position.y as i64;
            let ax: i64 = if dx < 0 { -dx } else { dx };
            let ay: i64 = if dy < 0 { -dy } else { dy };
            let diff = ax + ay;
            proof {
                assert(diff == manhattan(path@[i as int].position, path@[i + 1].position));
                lemma_slack_monotone(path@, i as int);
            }
            if diff > 1 {
                reached_steps = reached_steps + (diff - 1) as u64;
            }
            if reached_steps == steps {
                return Ok((i, reached_steps));
            } else if reached_steps > steps {
                return Err(ResolveError::StepsOvershoot);
            }
            next_position = path[i].position;
            index = i;
        }
        let mut j: usize = len - 1;
        while j > 0
            invariant
                0 <= j < len,
                len == path@.len(),
                last_start_index(path@, len - 1) == last_start_index(path@, j as int),
                reached_steps < steps,
                reached_steps == slack_from(path@, 0),
                scan_slack(path@, steps as int, len - 2) is NotReached,
            decreases j,
        {
            if path[j].position == path[0].position {
                return Ok((j, reached_steps));
            }
            j = j - 1;
        }
        Ok((0, reached_steps))
    }

    /// The latest position of `path` at which the vehicle is clear of
    /// `other_vehicle_rect`, or the first position when there is none.
    fn find_non_colliding_position(
        vehicle: &Vehicle,
        path: &Vec<TimedPosition>,
        other_vehicle_rect: &Rect,
    ) -> (r: Position)
        requires
            path@.len() > 0,
        ensures
            r == non_colliding_position(vehicle.rect.spec_width(), vehicle.rect.spec_height(),
                path@, *other_vehicle_rect),
    {
        let ghost w = vehicle.rect.spec_width();
        let ghost h = vehicle.rect.spec_height();
        let mut temp_rect = vehicle.rect;
        let mut k: usize = path.len();
        proof {
            assert(path@.subrange(0, k as int) == path@);
        }
        while k > 1
            invariant
                1 <= k <= path@.len(),
                w == vehicle.rect.spec_width(),
                h == vehicle.rect.spec_height(),
                temp_rect.spec_width() == w,
                temp_rect.spec_height() == h,
                non_colliding_position(w, h, path@, *other_vehicle_rect) == non_colliding_position(
                    w,
                    h,
                    path@.subrange(0, k as int),
                    *other_vehicle_rect,
                ),
            decreases k,
        {
            let p = path[k - 1].position;
            temp_rect.set_x(p.x);
            temp_rect.set_y(p.y);
            proof {
                assert(path@.subrange(0, k as int).drop_last() == path@.subrange(0, k - 1));
                assert(path@.subrange(0, k as int).last() == path@[k - 1]);
            }
            assert(temp_rect.left() == clamped_position(p.x));
            if !other_vehicle_rect.has_intersection(temp_rect) {
                assert(!collides_at(w, h, p, *other_vehicle_rect));
                assert(non_colliding_position(w, h, path@.subrange(0, k as int), *other_vehicle_rect) == p);
                return p;
            }
            k = k - 1;
        }
        proof {
            assert(path@.subrange(0, 1)[0] == path@[0]);
        }
        path[0].position
    }
}

} // verus!
