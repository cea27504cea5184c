use vstd::prelude::*;
use crate::compass::Direction;

verus! {

/// Index of a heading in the per-heading counters: North, South, East, West.
pub open spec fn heading_index(d: Direction) -> int {
    match d {
        Direction::North => 0,
        Direction::South => 1,
        Direction::East => 2,
        Direction::West => 3,
    }
}

fn index_of(d: Direction) -> (i: usize)
    ensures
        i == heading_index(d),
{
    match d {
        Direction::North => 0,
        Direction::South => 1,
        Direction::East => 2,
        Direction::West => 3,
    }
}

/// The number of entries of `ds` equal to `d`.
pub open spec fn count_heading(ds: Seq<Direction>, d: Direction) -> nat
    decreases ds.len(),
{
    if ds.len() == 0 {
        0
    } else {
        count_heading(ds.drop_last(), d) + if ds.last() == d {
            1nat
        } else {
            0nat
        }
    }
}

proof fn lemma_count_heading_bounded(ds: Seq<Direction>, d: Direction)
    ensures
        count_heading(ds, d) <= ds.len(),
    decreases ds.len(),
{
    if ds.len() > 0 {
        lemma_count_heading_bounded(ds.drop_last(), d);
    }
}

/// The heading counted most, the last one among equals, in the order North, South,
/// East, West.
pub open spec fn most_counted(c: Seq<u32>) -> Direction {
    if c[3] >= c[0] && c[3] >= c[1] && c[3] >= c[2] {
        Direction::West
    } else if c[2] >= c[0] && c[2] >= c[1] {
        Direction::East
    } else if c[1] >= c[0] {
        Direction::South
    } else {
        Direction::North
    }
}

/// Counts of the traffic flow, per heading: the vehicles that crossed, and the vehicles
/// near or in the intersection at the last analysis. Times and speeds are kept by the
/// caller.
pub struct TrafficFlowAnalyzer {
    pub throughput_by_direction: [u32; 4],
    pub congestion_by_direction: [u32; 4],
}

impl TrafficFlowAnalyzer {
    pub fn new() -> (a: TrafficFlowAnalyzer)
        ensures
            a.throughput_by_direction@ == seq![0u32, 0u32, 0u32, 0u32],
            a.congestion_by_direction@ == seq![0u32, 0u32, 0u32, 0u32],
    {
        TrafficFlowAnalyzer { throughput_by_direction: [0, 0, 0, 0], congestion_by_direction: [0, 0, 0, 0] }
    }

    /// Counts anew the vehicles near or in the intersection, given the heading of each.
    pub fn count_congestion(&mut self, near: &Vec<Direction>)
        requires
            near@.len() <= u32::MAX,
        ensures
            forall|d: Direction| #[trigger] final(self).congestion_by_direction@[heading_index(d)]
                == count_heading(near@, d),
            final(self).throughput_by_direction == old(self).throughput_by_direction,
    {
        let mut counts: [u32; 4] = [0, 0, 0, 0];
        let mut i: usize = 0;
        while i < near.len()
            invariant
                i <= near@.len(),
                near@.len() <= u32::MAX,
                forall|d: Direction| #[trigger] counts@[heading_index(d)] == count_heading(
                    near@.subrange(0, i as int),
                    d,
                ),
            decreases near@.len() - i,
        {
            let k = index_of(near[i]);
            proof {
                assert(near@.subrange(0, i + 1).drop_last() == near@.subrange(0, i as int));
                lemma_count_heading_bounded(near@.subrange(0, i as int), near@[i as int]);
            }
            counts[k] = counts[k] + 1;
            i = i + 1;
        }
        proof {
            assert(near@.subrange(0, near@.len() as int) == near@);
        }
        self.congestion_by_direction = counts;
    }

    /// The heading with the most vehicles near the intersection (the last one among
    /// equals).
    pub fn get_most_congested_direction(&self) -> (d: Direction)
        ensures
            d == most_counted(self.congestion_by_direction@),
    {
        let c = &self.congestion_by_direction;
        let mut best: usize = 0;
        let mut i: usize = 1;
        while i < 4
            invariant
                1 <= i <= 4,
                best < i,
                c@.len() == 4,
                forall|k: int| 0 <= k < i ==> c@[k] <= c@[best as int],
                forall|k: int| best < k < i ==> c@[k] < c@[best as int],
            decreases 4 - i,
        {
            if c[i] >= c[best] {
                best = i;
            }
            i = i + 1;
        }
        if best == 0 {
            Direction::North
        } else if best == 1 {
            Direction::South
        } else if best == 2 {
            Direction::East
        } else {
            Direction::West
        }
    }

    /// Vehicles heading `direction` near or in the intersection at the last analysis.
    pub fn get_congestion_level(&self, direction: Direction) -> (n: u32)
        ensures
            n == self.congestion_by_direction@[heading_index(direction)],
    {
        self.congestion_by_direction[index_of(direction)]
    }

    /// Counts a vehicle heading `direction` that crossed.
    pub fn record_vehicle_completion(&mut self, direction: Direction)
        requires
            old(self).throughput_by_direction@[heading_index(direction)] < u32::MAX,
        ensures
            final(self).throughput_by_direction@ == old(self).throughput_by_direction@.update(
                heading_index(direction),
                (old(self).throughput_by_direction@[heading_index(direction)] + 1) as u32,
            ),
            final(self).congestion_by_direction == old(self).congestion_by_direction,
    {
        let k = index_of(direction);
        self.throughput_by_direction[k] = self.throughput_by_direction[k] + 1;
    }

    /// Vehicles heading `direction` that crossed.
    pub fn get_throughput(&self, direction: Direction) -> (n: u32)
        ensures
            n == self.throughput_by_direction@[heading_index(direction)],
    {
        self.throughput_by_direction[index_of(direction)]
    }
}

} // verus!
