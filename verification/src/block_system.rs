use vstd::prelude::*;
use std::collections::HashMap;
use crate::compass::{Direction, Route};
use crate::geometry::position::div_toward_zero;

verus! {

broadcast use vstd::std_specs::hash::group_hash_axioms;

/// A cell of the block grid, in blocks.
#[derive(Debug, Clone, Copy, PartialEq, Eq, Hash, Structural)]
pub struct BlockPosition {
    pub x: i32,
    pub y: i32,
}

/// What a cell of the grid holds.
#[derive(Debug, Clone, Copy, PartialEq, Eq, Structural)]
pub enum BlockType {
    Road,
    Intersection,
    Outside,
}

/// What a vehicle of the grid model is doing.
#[derive(Debug, Clone, Copy, PartialEq, Eq, Structural)]
pub enum VehicleState {
    Moving,
    Waiting,
    Completed,
}

/// The key under which a cell is stored: both coordinates shifted to be non-negative and
/// packed into one `u64`, the row coordinate in the low half.
pub open spec fn block_key(p: BlockPosition) -> u64 {
    ((p.x + 0x8000_0000) * 0x1_0000_0000 + (p.y + 0x8000_0000)) as u64
}

pub proof fn lemma_block_key_injective(p: BlockPosition, q: BlockPosition)
    ensures
        block_key(p) == block_key(q) ==> p == q,
{
    let a = p.x + 0x8000_0000;
    let b = p.y + 0x8000_0000;
    let c = q.x + 0x8000_0000;
    let d = q.y + 0x8000_0000;
    assert(0 <= a * 0x1_0000_0000 + b <= u64::MAX) by (nonlinear_arith)
        requires
            0 <= a < 0x1_0000_0000,
            0 <= b < 0x1_0000_0000,
    ;
    assert(0 <= c * 0x1_0000_0000 + d <= u64::MAX) by (nonlinear_arith)
        requires
            0 <= c < 0x1_0000_0000,
            0 <= d < 0x1_0000_0000,
    ;
    if block_key(p) == block_key(q) {
        assert(a == c && b == d) by (nonlinear_arith)
            requires
                a * 0x1_0000_0000 + b == c * 0x1_0000_0000 + d,
                0 <= b < 0x1_0000_0000,
                0 <= d < 0x1_0000_0000,
        ;
    }
}

/// `a` divided by a non-zero `b`, rounding toward zero, as Rust's integer division does.
pub open spec fn quotient_toward_zero(a: int, b: int) -> int {
    let q = (if a < 0 { -a } else { a }) / (if b < 0 { -b } else { b });
    if (a < 0) == (b < 0) {
        q
    } else {
        -q
    }
}

/// `a / b` as Rust computes it on `i32`, for a divisor that is not zero and a quotient
/// that fits.
fn divide_toward_zero(a: i32, b: i32) -> (q: i32)
    requires
        b != 0,
        !(a == i32::MIN && b == -1),
    ensures
        q == quotient_toward_zero(a as int, b as int),
{
    let aa: i64 = if a < 0 { -(a as i64) } else { a as i64 };
    let bb: i64 = if b < 0 { -(b as i64) } else { b as i64 };
    let m: i64 = aa / bb;
    proof {
        assert(0 <= m <= aa) by (nonlinear_arith)
            requires
                0 <= aa,
                1 <= bb,
                m == aa / bb,
        ;
        assert(bb >= 2 ==> m <= aa / 2) by (nonlinear_arith)
            requires
                0 <= aa,
                m == aa / bb,
        ;
    }
    if (a < 0) == (b < 0) {
        m as i32
    } else {
        (-m) as i32
    }
}

/// `v` clamped into `[lo, hi]`.
pub open spec fn clamp(v: int, lo: int, hi: int) -> int {
    if v < lo {
        lo
    } else if v > hi {
        hi
    } else {
        v
    }
}

/// The cell one block away from `p` in heading `d`.
pub open spec fn step(p: BlockPosition, d: Direction) -> BlockPosition {
    match d {
        Direction::North => BlockPosition { x: p.x, y: (p.y - 1) as i32 },
        Direction::South => BlockPosition { x: p.x, y: (p.y + 1) as i32 },
        Direction::East => BlockPosition { x: (p.x + 1) as i32, y: p.y },
        Direction::West => BlockPosition { x: (p.x - 1) as i32, y: p.y },
    }
}

/// The heading to the left of `d`.
pub open spec fn left_of(d: Direction) -> Direction {
    match d {
        Direction::North => Direction::West,
        Direction::South => Direction::East,
        Direction::East => Direction::North,
        Direction::West => Direction::South,
    }
}

/// The heading to the right of `d`.
pub open spec fn right_of(d: Direction) -> Direction {
    match d {
        Direction::North => Direction::East,
        Direction::South => Direction::West,
        Direction::East => Direction::South,
        Direction::West => Direction::North,
    }
}

/// The cell a vehicle heading `d` on route `route` makes for from `p`: inside the
/// intersection it steps toward its exit side, elsewhere straight ahead.
pub open spec fn candidate_step(p: BlockPosition, d: Direction, route: Route, at_intersection: bool)
    -> BlockPosition {
    if at_intersection {
        match route {
            Route::Straight => step(p, d),
            Route::Left => step(p, left_of(d)),
            Route::Right => step(p, right_of(d)),
        }
    } else {
        step(p, d)
    }
}

/// A grid of square blocks over the window: two crossing roads six lanes wide, whose
/// crossing square is the intersection, and the vehicle occupying each block.
pub struct BlockGrid {
    /// The type of each road block, by `block_key`; blocks not held are outside the road.
    pub blocks: HashMap<u64, BlockType>,
    /// The id of the vehicle occupying each block, by `block_key`.
    pub occupied_blocks: HashMap<u64, u32>,
    pub block_size: u32,
    pub grid_width: i32,
    pub grid_height: i32,
    pub intersection_center: BlockPosition,
    /// Side of the intersection square, in blocks.
    pub intersection_size: i32,
}

impl BlockGrid {
    /// Whether `p` lies in the intersection square.
    pub open spec fn in_intersection_area(self, p: BlockPosition) -> bool {
        let c = self.intersection_center;
        let half = self.intersection_size / 2;
        c.x - half <= p.x < c.x + half && c.y - half <= p.y < c.y + half
    }

    /// Whether `p` lies on one of the two roads, inside the grid.
    pub open spec fn on_road(self, p: BlockPosition) -> bool {
        let c = self.intersection_center;
        let inside = 0 <= p.x < self.grid_width && 0 <= p.y < self.grid_height;
        inside && (c.x - 3 <= p.x < c.x + 3 || c.y - 3 <= p.y < c.y + 3)
    }

    /// The type of block `p` as laid out by `new`.
    pub open spec fn layout_type(self, p: BlockPosition) -> BlockType {
        if !self.on_road(p) {
            BlockType::Outside
        } else if self.in_intersection_area(p) {
            BlockType::Intersection
        } else {
            BlockType::Road
        }
    }

    /// The type stored for block `p`; blocks not held are outside the road.
    pub open spec fn block_type(self, p: BlockPosition) -> BlockType {
        if self.blocks@.contains_key(block_key(p)) {
            self.blocks@[block_key(p)]
        } else {
            BlockType::Outside
        }
    }

    /// The vehicle occupying block `p`, if any.
    pub open spec fn occupant(self, p: BlockPosition) -> Option<u32> {
        if self.occupied_blocks@.contains_key(block_key(p)) {
            Some(self.occupied_blocks@[block_key(p)])
        } else {
            None
        }
    }

    /// Whether vehicle `id` may enter block `p`: it is on the road and free or already
    /// its own.
    pub open spec fn may_enter(self, p: BlockPosition, id: u32) -> bool {
        &&& self.block_type(p) != BlockType::Outside
        &&& match self.occupant(p) {
            Some(o) => o == id,
            None => true,
        }
    }

    /// The grid over a `window_width` by `window_height` window with blocks of side
    /// `block_size`: the intersection is 12 blocks square around the grid's center.
    pub fn new(window_width: u32, window_height: u32, block_size: u32) -> (g: BlockGrid)
        requires
            block_size > 0,
        ensures
            g.block_size == block_size,
            g.grid_width == (window_width / block_size) as i32,
            g.grid_height == (window_height / block_size) as i32,
            g.intersection_center == (BlockPosition {
                x: div_toward_zero(g.grid_width as int, 2) as i32,
                y: div_toward_zero(g.grid_height as int, 2) as i32,
            }),
            g.intersection_size == 12,
            g.occupied_blocks@ == Map::<u64, u32>::empty(),
            forall|p: BlockPosition| #[trigger] g.block_type(p) == g.layout_type(p),
            forall|p: BlockPosition| #[trigger] g.blocks@.contains_key(block_key(p)) <==> g.on_road(p),
            g.roads_inside(),
    {
        let grid_width = (window_width / block_size) as i32;
        let grid_height = (window_height / block_size) as i32;
        let intersection_center = BlockPosition { x: grid_width / 2, y: grid_height / 2 };
        let mut grid = BlockGrid {
            blocks: HashMap::new(),
            occupied_blocks: HashMap::new(),
            block_size,
            grid_width,
            grid_height,
            intersection_center,
            intersection_size: 12,
        };
        grid.initialize_blocks();
        assert forall|p: BlockPosition| #[trigger] grid.blocks@.contains_key(block_key(p))
            <==> grid.on_road(p) by {
            assert(grid.block_type(p) == grid.layout_type(p));
        }
        grid
    }

    /// Lays out the two roads, six blocks wide, crossing at the intersection center.
    fn initialize_blocks(&mut self)
        requires
            old(self).blocks@ == Map::<u64, BlockType>::empty(),
            old(self).intersection_center.x == div_toward_zero(old(self).grid_width as int, 2),
            old(self).intersection_center.y == div_toward_zero(old(self).grid_height as int, 2),
        ensures
            final(self).block_size == old(self).block_size,
            final(self).grid_width == old(self).grid_width,
            final(self).grid_height == old(self).grid_height,
            final(self).intersection_center == old(self).intersection_center,
            final(self).intersection_size == old(self).intersection_size,
            final(self).occupied_blocks == old(self).occupied_blocks,
            forall|k: u64| #[trigger] final(self).blocks@.contains_key(k) ==> final(self).blocks@[k]
                != BlockType::Outside,
            forall|p: BlockPosition| #[trigger] final(self).block_type(p) == final(self).layout_type(p),
    {
        let center = self.intersection_center;
        // Vertical road (north-south), then horizontal road (east-west).
        let mut y: i32 = 0;
        while y < self.grid_height
            invariant
                self.block_size == old(self).block_size,
                self.grid_width == old(self).grid_width,
                self.grid_height == old(self).grid_height,
                self.intersection_center == old(self).intersection_center,
                self.intersection_size == old(self).intersection_size,
                self.occupied_blocks == old(self).occupied_blocks,
                forall|k: u64| #[trigger] self.blocks@.contains_key(k) ==> self.blocks@[k] != BlockType::Outside,
                center == self.intersection_center,
                center.x == div_toward_zero(self.grid_width as int, 2),
                0 <= y,
                y <= self.grid_height || self.grid_height <= 0,
                forall|p: BlockPosition| #[trigger] self.block_type(p) == if self.on_road(p)
                    && center.x - 3 <= p.x < center.x + 3 && p.y < y {
                    self.layout_type(p)
                } else {
                    BlockType::Outside
                },
            decreases self.grid_height - y,
        {
            let mut x: i32 = center.x - 3;
            while x < center.x + 3
                invariant
                    self.block_size == old(self).block_size,
                    self.grid_width == old(self).grid_width,
                    self.grid_height == old(self).grid_height,
                    self.intersection_center == old(self).intersection_center,
                    self.intersection_size == old(self).intersection_size,
                    self.occupied_blocks == old(self).occupied_blocks,
                    forall|k: u64| #[trigger] self.blocks@.contains_key(k) ==> self.blocks@[k] != BlockType::Outside,
                    center == self.intersection_center,
                    center.x == div_toward_zero(self.grid_width as int, 2),
                    0 <= y < self.grid_height,
                    center.x - 3 <= x <= center.x + 3,
                    forall|p: BlockPosition| #[trigger] self.block_type(p) == if self.on_road(p)
                        && center.x - 3 <= p.x < center.x + 3 && (p.y < y || (p.y == y && p.x < x)) {
                        self.layout_type(p)
                    } else {
                        BlockType::Outside
                    },
                decreases center.x + 3 - x,
            {
                if x >= 0 && x < self.grid_width {
                    let pos = BlockPosition { x, y };
                    let t = if self.is_in_intersection_area(pos) {
                        BlockType::Intersection
                    } else {
                        BlockType::Road
                    };
                    let ghost prev = *self;
                    self.blocks.insert(block_key_of(pos), t);
                    proof {
                        assert forall|p: BlockPosition| #[trigger] self.block_type(p) == if self.on_road(p)
                            && center.x - 3 <= p.x < center.x + 3 && (p.y < y || (p.y == y && p.x < x + 1)) {
                            self.layout_type(p)
                        } else {
                            BlockType::Outside
                        } by {
                            lemma_block_key_injective(p, pos);
                            let _ = prev.block_type(p);
                            if p != pos {
                                assert(self.blocks@[block_key(p)] == prev.blocks@[block_key(p)] || !self.blocks@.contains_key(block_key(p)));
                            }
                        }
                    }
                }
                x = x + 1;
            }
            y = y + 1;
        }
        let mut x: i32 = 0;
        while x < self.grid_width
            invariant
                self.block_size == old(self).block_size,
                self.grid_width == old(self).grid_width,
                self.grid_height == old(self).grid_height,
                self.intersection_center == old(self).intersection_center,
                self.intersection_size == old(self).intersection_size,
                self.occupied_blocks == old(self).occupied_blocks,
                forall|k: u64| #[trigger] self.blocks@.contains_key(k) ==> self.blocks@[k] != BlockType::Outside,
                center == self.intersection_center,
                center.y == div_toward_zero(self.grid_height as int, 2),
                0 <= x,
                x <= self.grid_width || self.grid_width <= 0,
                forall|p: BlockPosition| #[trigger] self.block_type(p) == if self.on_road(p)
                    && (center.x - 3 <= p.x < center.x + 3 || (center.y - 3 <= p.y < center.y + 3 && p.x < x)) {
                    self.layout_type(p)
                } else {
                    BlockType::Outside
                },
            decreases self.grid_width - x,
        {
            let mut y: i32 = center.y - 3;
            while y < center.y + 3
                invariant
                    self.block_size == old(self).block_size,
                    self.grid_width == old(self).grid_width,
                    self.grid_height == old(self).grid_height,
                    self.intersection_center == old(self).intersection_center,
                    self.intersection_size == old(self).intersection_size,
                    self.occupied_blocks == old(self).occupied_blocks,
                    forall|k: u64| #[trigger] self.blocks@.contains_key(k) ==> self.blocks@[k] != BlockType::Outside,
                    center == self.intersection_center,
                    center.y == div_toward_zero(self.grid_height as int, 2),
                    0 <= x < self.grid_width,
                    center.y - 3 <= y <= center.y + 3,
                    forall|p: BlockPosition| #[trigger] self.block_type(p) == if self.on_road(p)
                        && (center.x - 3 <= p.x < center.x + 3 || (center.y - 3 <= p.y < center.y + 3 && (p.x < x || (p.x == x && p.y < y)))) {
                        self.layout_type(p)
                    } else {
                        BlockType::Outside
                    },
                decreases center.y + 3 - y,
            {
                if y >= 0 && y < self.grid_height {
                    let pos = BlockPosition { x, y };
                    let t = if self.is_in_intersection_area(pos) {
                        BlockType::Intersection
                    } else {
                        BlockType::Road
                    };
                    let ghost prev = *self;
                    self.blocks.insert(block_key_of(pos), t);
                    proof {
                        assert forall|p: BlockPosition| #[trigger] self.block_type(p) == if self.on_road(p)
                            && (center.x - 3 <= p.x < center.x + 3 || (center.y - 3 <= p.y < center.y + 3 && (p.x < x || (p.x == x && p.y < y + 1)))) {
                            self.layout_type(p)
                        } else {
                            BlockType::Outside
                        } by {
                            lemma_block_key_injective(p, pos);
                            let _ = prev.block_type(p);
                            if p != pos {
                                assert(self.blocks@[block_key(p)] == prev.blocks@[block_key(p)] || !self.blocks@.contains_key(block_key(p)));
                            }
                        }
                    }
                }
                y = y + 1;
            }
            x = x + 1;
        }
    }

    fn is_in_intersection_area(&self, pos: BlockPosition) -> (r: bool)
        ensures
            r == self.in_intersection_area(pos),
    {
        let center = self.intersection_center;
        let half_size: i64 = self.intersection_size as i64 / 2;
        let px = pos.x as i64;
        let py = pos.y as i64;
        px >= center.x as i64 - half_size && px < center.x as i64 + half_size && py >= center.y
            as i64 - half_size && py < center.y as i64 + half_size
    }

    /// The type of block `pos`.
    pub fn get_block_type(&self, pos: BlockPosition) -> (r: BlockType)
        ensures
            r == self.block_type(pos),
    {
        match self.blocks.get(&block_key_of(pos)) {
            Some(t) => *t,
            None => BlockType::Outside,
        }
    }

    /// Whether a vehicle occupies block `pos`.
    pub fn is_block_occupied(&self, pos: BlockPosition) -> (r: bool)
        ensures
            r == self.occupant(pos) is Some,
    {
        self.occupied_blocks.contains_key(&block_key_of(pos))
    }

    /// Whether vehicle `vehicle_id` may enter block `pos`: the block is on the road and
    /// free, or already occupied by that vehicle.
    pub fn can_move_to(&self, pos: BlockPosition, vehicle_id: u32) -> (r: bool)
        ensures
            r == self.may_enter(pos, vehicle_id),
    {
        match self.get_block_type(pos) {
            BlockType::Outside => false,
            _ => match self.occupied_blocks.get(&block_key_of(pos)) {
                Some(occupying_id) => *occupying_id == vehicle_id,
                None => true,
            },
        }
    }

    /// Moves vehicle `vehicle_id` from `from` to `to` if it may enter `to`; returns
    /// whether it moved.
    pub fn move_vehicle(&mut self, vehicle_id: u32, from: BlockPosition, to: BlockPosition) -> (r:
        bool)
        ensures
            r == old(self).may_enter(to, vehicle_id),
            r ==> final(self).occupied_blocks@ == old(self).occupied_blocks@.remove(
                block_key(from),
            ).insert(block_key(to), vehicle_id),
            !r ==> final(self).occupied_blocks@ == old(self).occupied_blocks@,
            final(self).blocks == old(self).blocks,
            final(self).same_layout(*old(self)),
    {
        if self.can_move_to(to, vehicle_id) {
            self.occupied_blocks.remove(&block_key_of(from));
            self.occupied_blocks.insert(block_key_of(to), vehicle_id);
            true
        } else {
            false
        }
    }

    /// Places vehicle `vehicle_id` on block `pos` if it may enter it; returns whether it
    /// was placed.
    pub fn add_vehicle(&mut self, vehicle_id: u32, pos: BlockPosition) -> (r: bool)
        ensures
            r == old(self).may_enter(pos, vehicle_id),
            r ==> final(self).occupied_blocks@ == old(self).occupied_blocks@.insert(
                block_key(pos),
                vehicle_id,
            ),
            !r ==> final(self).occupied_blocks@ == old(self).occupied_blocks@,
            final(self).blocks == old(self).blocks,
            final(self).same_layout(*old(self)),
    {
        if self.can_move_to(pos, vehicle_id) {
            self.occupied_blocks.insert(block_key_of(pos), vehicle_id);
            true
        } else {
            false
        }
    }

    /// Frees block `pos` if vehicle `vehicle_id` occupies it.
    pub fn remove_vehicle(&mut self, vehicle_id: u32, pos: BlockPosition)
        ensures
            old(self).occupant(pos) == Some(vehicle_id) ==> final(self).occupied_blocks@ == old(
                self,
            ).occupied_blocks@.remove(block_key(pos)),
            old(self).occupant(pos) != Some(vehicle_id) ==> final(self).occupied_blocks@ == old(
                self,
            ).occupied_blocks@,
            final(self).blocks == old(self).blocks,
            final(self).same_layout(*old(self)),
    {
        let key = block_key_of(pos);
        let owned = match self.occupied_blocks.get(&key) {
            Some(id) => *id == vehicle_id,
            None => false,
        };
        if owned {
            self.occupied_blocks.remove(&key);
        }
    }

    /// Whether every block held as road or intersection lies inside the grid, as in a grid
    /// built by `new`.
    pub open spec fn roads_inside(self) -> bool {
        forall|p: BlockPosition|
            #[trigger] self.block_type(p) != BlockType::Outside ==> 0 <= p.x < self.grid_width && 0
                <= p.y < self.grid_height
    }

    /// The size fields are those of `other`.
    pub open spec fn same_layout(self, other: BlockGrid) -> bool {
        &&& self.block_size == other.block_size
        &&& self.grid_width == other.grid_width
        &&& self.grid_height == other.grid_height
        &&& self.intersection_center == other.intersection_center
        &&& self.intersection_size == other.intersection_size
    }

    /// The block containing pixel `(x, y)`: each coordinate divided, rounding toward zero,
    /// by the block size taken as an `i32` (a size beyond `i32::MAX` wraps to a negative
    /// divisor, and `u32::MAX` to -1, which cannot divide `i32::MIN`).
    pub fn pixel_to_block(&self, x: i32, y: i32) -> (r: BlockPosition)
        requires
            self.block_size > 0,
            self.block_size == u32::MAX ==> x != i32::MIN && y != i32::MIN,
        ensures
            r.x == quotient_toward_zero(x as int, (self.block_size as i32) as int),
            r.y == quotient_toward_zero(y as int, (self.block_size as i32) as int),
            self.block_size <= i32::MAX ==> r.x == div_toward_zero(x as int, self.block_size as int),
            self.block_size <= i32::MAX ==> r.y == div_toward_zero(y as int, self.block_size as int),
    {
        let bs = self.block_size;
        let size = bs as i32;
        assert(size != 0) by (bit_vector)
            requires
                size == bs as i32,
                bs > 0,
        ;
        assert(size == -1 ==> bs == u32::MAX) by (bit_vector)
            requires
                size == bs as i32,
        ;
        assert(bs <= i32::MAX ==> size == bs) by (bit_vector)
            requires
                size == bs as i32,
        ;
        BlockPosition { x: divide_toward_zero(x, size), y: divide_toward_zero(y, size) }
    }

    /// The pixel at the center of block `pos`.
    pub fn block_to_pixel(&self, pos: BlockPosition) -> (r: (i32, i32))
        requires
            0 < self.block_size <= i32::MAX,
            i32::MIN <= pos.x * self.block_size + self.block_size / 2 <= i32::MAX,
            i32::MIN <= pos.y * self.block_size + self.block_size / 2 <= i32::MAX,
        ensures
            r.0 == pos.x * self.block_size + self.block_size / 2,
            r.1 == pos.y * self.block_size + self.block_size / 2,
    {
        let size = self.block_size as i64;
        let px = pos.x as i64 * size + size / 2;
        let py = pos.y as i64 * size + size / 2;
        proof {
            assert(pos.x as i64 * size == pos.x * self.block_size);
        }
        (px as i32, py as i32)
    }

    /// The lane, from 0 to 5, of block `pos` across the road that heading `direction`
    /// runs along (positions beyond the road clamp to the outer lanes).
    pub fn get_lane_index(&self, pos: BlockPosition, direction: Direction) -> (r: usize)
        ensures
            r == match direction {
                Direction::North | Direction::South => clamp(pos.x - (self.intersection_center.x - 3), 0, 5),
                Direction::East | Direction::West => clamp(pos.y - (self.intersection_center.y - 3), 0, 5),
            },
    {
        let center = self.intersection_center;
        let offset: i64 = match direction {
            Direction::North | Direction::South => pos.x as i64 - (center.x as i64 - 3),
            Direction::East | Direction::West => pos.y as i64 - (center.y as i64 - 3),
        };
        let clamped: i64 = if offset < 0 {
            0
        } else if offset > 5 {
            5
        } else {
            offset
        };
        clamped as usize
    }

    /// The blocks a vehicle on `current` heading `direction` on `route` may move to next:
    /// the block toward its exit side when inside the intersection, the block ahead
    /// elsewhere, kept only if it is on the road.
    pub fn get_next_positions(&self, current: BlockPosition, direction: Direction, route: Route)
        -> (r: Vec<BlockPosition>)
        requires
            i32::MIN < current.x < i32::MAX,
            i32::MIN < current.y < i32::MAX,
        ensures
            ({
                let next = candidate_step(current, direction, route, self.block_type(current)
                    == BlockType::Intersection);
                if self.block_type(next) == BlockType::Outside {
                    r@ == Seq::<BlockPosition>::empty()
                } else {
                    r@ == seq![next]
                }
            }),
    {
        let forward_pos = step_in(current, direction);
        let mut next_positions: Vec<BlockPosition> = Vec::new();
        if self.get_block_type(current) == BlockType::Intersection {
            match route {
                Route::Straight => next_positions.push(forward_pos),
                Route::Left => {
                    let left = match direction {
                        Direction::North => Direction::West,
                        Direction::South => Direction::East,
                        Direction::East => Direction::North,
                        Direction::West => Direction::South,
                    };
                    next_positions.push(step_in(current, left));
                },
                Route::Right => {
                    let right = match direction {
                        Direction::North => Direction::East,
                        Direction::South => Direction::West,
                        Direction::East => Direction::South,
                        Direction::West => Direction::North,
                    };
                    next_positions.push(step_in(current, right));
                },
            }
        } else {
            next_positions.push(forward_pos);
        }
        let mut kept: Vec<BlockPosition> = Vec::new();
        let candidate = next_positions[0];
        let t = self.get_block_type(candidate);
        if t == BlockType::Road || t == BlockType::Intersection {
            kept.push(candidate);
        }
        kept
    }
}

/// What an attempt to move a grid vehicle one block came to.
#[derive(Debug, Clone, Copy, PartialEq, Eq, Structural)]
pub enum MoveOutcome {
    /// The vehicle moved one block and is still on the map.
    Moved,
    /// The vehicle moved off the map and freed its block.
    LeftMap,
    /// The vehicle could not move and waits.
    Blocked,
}

/// The heading after a move onto a block: inside the intersection a turning vehicle
/// takes its exit heading, otherwise the heading stays.
pub open spec fn heading_after_move(d: Direction, route: Route, at_intersection: bool) -> Direction {
    if at_intersection {
        match route {
            Route::Left => left_of(d),
            Route::Right => right_of(d),
            Route::Straight => d,
        }
    } else {
        d
    }
}

/// A vehicle of the grid model: the block it occupies, its heading and route, and what
/// it is doing. How often it tries to move is kept by the caller.
#[derive(Debug, Clone, Copy, PartialEq, Eq, Structural)]
pub struct BlockVehicle {
    pub id: u32,
    pub block_position: BlockPosition,
    pub direction: Direction,
    pub route: Route,
    pub state: VehicleState,
}

impl BlockVehicle {
    /// A moving vehicle on block `start_pos`.
    pub fn new(id: u32, start_pos: BlockPosition, direction: Direction, route: Route) -> (v:
        BlockVehicle)
        ensures
            v == (BlockVehicle {
                id,
                block_position: start_pos,
                direction,
                route,
                state: VehicleState::Moving,
            }),
    {
        BlockVehicle { id, block_position: start_pos, direction, route, state: VehicleState::Moving }
    }

    /// Whether the vehicle's block lies outside the grid.
    pub open spec fn off_map(self, grid: BlockGrid) -> bool {
        self.block_position.x < 0 || self.block_position.x >= grid.grid_width
            || self.block_position.y < 0 || self.block_position.y >= grid.grid_height
    }

    /// Tries to move the vehicle to its next block; a vehicle that is done stays done and
    /// is reported as off the map. Otherwise, if that block is on the road and free
    /// (or its own), the vehicle moves there, turns if the block is in the intersection,
    /// and is done (its block freed) if the block lies off the map; otherwise it waits.
    pub fn advance(&mut self, grid: &mut BlockGrid) -> (r: MoveOutcome)
        requires
            i32::MIN < old(self).block_position.x < i32::MAX,
            i32::MIN < old(self).block_position.y < i32::MAX,
        ensures
            final(grid).blocks == old(grid).blocks,
            final(grid).same_layout(*old(grid)),
            final(self).id == old(self).id,
            final(self).route == old(self).route,
            old(grid).roads_inside() ==> final(grid).roads_inside(),
            old(grid).roads_inside() ==> (r == MoveOutcome::LeftMap <==> old(self).state
                == VehicleState::Completed),
            old(grid).roads_inside() ==> (final(self).state == VehicleState::Completed <==> old(
                self,
            ).state == VehicleState::Completed),
            old(self).state == VehicleState::Completed ==> {
                &&& r == MoveOutcome::LeftMap
                &&& *final(self) == *old(self)
                &&& final(grid).occupied_blocks@ == old(grid).occupied_blocks@
            },
            old(self).state != VehicleState::Completed ==> ({
                let from = old(self).block_position;
                let next = candidate_step(from, old(self).direction, old(self).route,
                    old(grid).block_type(from) == BlockType::Intersection);
                let can = old(grid).block_type(next) != BlockType::Outside && old(grid).may_enter(
                    next,
                    old(self).id,
                );
                if can {
                    let moved = old(grid).occupied_blocks@.remove(block_key(from)).insert(
                        block_key(next),
                        old(self).id,
                    );
                    &&& final(self).block_position == next
                    &&& final(self).direction == heading_after_move(old(self).direction,
                        old(self).route, old(grid).block_type(next) == BlockType::Intersection)
                    &&& if final(self).off_map(*old(grid)) {
                        &&& r == MoveOutcome::LeftMap
                        &&& final(self).state == VehicleState::Completed
                        &&& final(grid).occupied_blocks@ == if moved[block_key(next)]
                            == old(self).id {
                            moved.remove(block_key(next))
                        } else {
                            moved
                        }
                    } else {
                        &&& r == MoveOutcome::Moved
                        &&& final(self).state == VehicleState::Moving
                        &&& final(grid).occupied_blocks@ == moved
                    }
                } else {
                    &&& r == MoveOutcome::Blocked
                    &&& final(self).state == VehicleState::Waiting
                    &&& final(self).block_position == from
                    &&& final(self).direction == old(self).direction
                    &&& final(grid).occupied_blocks@ == old(grid).occupied_blocks@
                }
            }),
    {
        if self.state == VehicleState::Completed {
            return MoveOutcome::LeftMap;
        }
        let next_positions = grid.get_next_positions(self.block_position, self.direction, self.route);
        if next_positions.len() > 0 {
            let next_pos = next_positions[0];
            if grid.can_move_to(next_pos, self.id) {
                if grid.move_vehicle(self.id, self.block_position, next_pos) {
                    self.block_position = next_pos;
                    self.state = VehicleState::Moving;
                    self.update_direction_after_move(grid);
                    if self.is_off_map(grid) {
                        self.state = VehicleState::Completed;
                        grid.remove_vehicle(self.id, next_pos);
                        return MoveOutcome::LeftMap;
                    }
                    proof {
                        assert forall|p: BlockPosition| #[trigger] grid.block_type(p) == old(
                            grid,
                        ).block_type(p) by {}
                    }
                    return MoveOutcome::Moved;
                }
            }
        }
        self.state = VehicleState::Waiting;
        MoveOutcome::Blocked
    }

    fn update_direction_after_move(&mut self, grid: &BlockGrid)
        ensures
            *final(self) == (BlockVehicle {
                direction: heading_after_move(old(self).direction, old(self).route,
                    grid.block_type(old(self).block_position) == BlockType::Intersection),
                ..*old(self)
            }),
    {
        if grid.get_block_type(self.block_position) == BlockType::Intersection {
            match self.route {
                Route::Left => {
                    self.direction = match self.direction {
                        Direction::North => Direction::West,
                        Direction::South => Direction::East,
                        Direction::East => Direction::North,
                        Direction::West => Direction::South,
                    };
                },
                Route::Right => {
                    self.direction = match self.direction {
                        Direction::North => Direction::East,
                        Direction::South => Direction::West,
                        Direction::East => Direction::South,
                        Direction::West => Direction::North,
                    };
                },
                Route::Straight => {},
            }
        }
    }

    fn is_off_map(&self, grid: &BlockGrid) -> (r: bool)
        ensures
            r == self.off_map(*grid),
    {
        self.block_position.x < 0 || self.block_position.x >= grid.grid_width
            || self.block_position.y < 0 || self.block_position.y >= grid.grid_height
    }

    /// Number of occupied blocks among the `n` blocks beyond `next`, in heading `d`.
    pub open spec fn occupied_ahead(grid: BlockGrid, next: BlockPosition, d: Direction, n: int) -> int
        decreases n,
    {
        if n <= 0 {
            0
        } else {
            Self::occupied_ahead(grid, next, d, n - 1) + if grid.occupant(
                Self::ahead_of(next, d, n),
            ) is Some {
                1int
            } else {
                0int
            }
        }
    }

    /// The block `i` blocks beyond `next` in heading `d`.
    pub open spec fn ahead_of(next: BlockPosition, d: Direction, i: int) -> BlockPosition {
        match d {
            Direction::North => BlockPosition { x: next.x, y: (next.y - i) as i32 },
            Direction::South => BlockPosition { x: next.x, y: (next.y + i) as i32 },
            Direction::East => BlockPosition { x: (next.x + i) as i32, y: next.y },
            Direction::West => BlockPosition { x: (next.x - i) as i32, y: next.y },
        }
    }

    /// The number of occupied blocks among the three beyond the vehicle's next block, in
    /// its heading (see `occupied_ahead`); the caller sets the vehicle's pace from it.
    pub fn blocked_ahead(&self, grid: &BlockGrid) -> (r: u32)
        requires
            i32::MIN + 4 < self.block_position.x < i32::MAX - 4,
            i32::MIN + 4 < self.block_position.y < i32::MAX - 4,
        ensures
            r <= 3,
            ({
                let next = candidate_step(self.block_position, self.direction, self.route,
                    grid.block_type(self.block_position) == BlockType::Intersection);
                &&& grid.block_type(next) == BlockType::Outside ==> r == 0
                &&& grid.block_type(next) != BlockType::Outside ==> r == Self::occupied_ahead(
                    *grid,
                    next,
                    self.direction,
                    3,
                )
            }),
    {
        let next_positions = grid.get_next_positions(self.block_position, self.direction, self.route);
        let mut blocked_count: u32 = 0;
        let mut i: i32 = 1;
        while i <= 3
            invariant
                1 <= i <= 4,
                blocked_count < i,
                next_positions@.len() <= 1,
                next_positions@.len() == 1 ==> {
                    let n = next_positions@[0];
                    &&& i32::MIN + 3 < n.x < i32::MAX - 3
                    &&& i32::MIN + 3 < n.y < i32::MAX - 3
                },
                next_positions@.len() == 0 ==> blocked_count == 0,
                next_positions@.len() == 1 ==> blocked_count == Self::occupied_ahead(
                    *grid,
                    next_positions@[0],
                    self.direction,
                    i - 1,
                ),
            decreases 4 - i,
        {
            if next_positions.len() > 0 {
                let next_pos = next_positions[0];
                let ahead_pos = match self.direction {
                    Direction::North => BlockPosition { x: next_pos.x, y: next_pos.y - i },
                    Direction::South => BlockPosition { x: next_pos.x, y: next_pos.y + i },
                    Direction::East => BlockPosition { x: next_pos.x + i, y: next_pos.y },
                    Direction::West => BlockPosition { x: next_pos.x - i, y: next_pos.y },
                };
                if grid.is_block_occupied(ahead_pos) {
                    blocked_count = blocked_count + 1;
                }
            }
            i = i + 1;
        }
        blocked_count
    }
}

/// The block one step from `p` in heading `d`.
fn step_in(p: BlockPosition, d: Direction) -> (r: BlockPosition)
    requires
        i32::MIN < p.x < i32::MAX,
        i32::MIN < p.y < i32::MAX,
    ensures
        r == step(p, d),
{
    match d {
        Direction::North => BlockPosition { x: p.x, y: p.y - 1 },
        Direction::South => BlockPosition { x: p.x, y: p.y + 1 },
        Direction::East => BlockPosition { x: p.x + 1, y: p.y },
        Direction::West => BlockPosition { x: p.x - 1, y: p.y },
    }
}

/// The key of block `p` (see `block_key`).
pub fn block_key_of(p: BlockPosition) -> (k: u64)
    ensures
        k == block_key(p),
{
    let a = (p.x as i64 + 0x8000_0000) as u64;
    let b = (p.y as i64 + 0x8000_0000) as u64;
    proof {
        assert(a * 0x1_0000_0000 + b <= u64::MAX) by (nonlinear_arith)
            requires
                a < 0x1_0000_0000,
                b < 0x1_0000_0000,
        ;
    }
    a * 0x1_0000_0000 + b
}

/// Adding a vehicle to a free road block and removing it again leaves every block with
/// the occupant it had.
pub proof fn lemma_add_remove_restores(before: BlockGrid, added: BlockGrid, after: BlockGrid, id: u32, p: BlockPosition)
    requires
        before.occupant(p) is None,
        added.occupied_blocks@ == before.occupied_blocks@.insert(block_key(p), id),
        added.occupant(p) == Some(id) ==> after.occupied_blocks@ == added.occupied_blocks@.remove(block_key(p)),
    ensures
        forall|q: BlockPosition| #[trigger] after.occupant(q) == before.occupant(q),
{
    assert(after.occupied_blocks@ =~= before.occupied_blocks@);
}

/// After a successful move the vehicle occupies its new block, its old block is free
/// (unless it stayed in place), and every other block keeps its occupant.
pub proof fn lemma_move_occupancy(before: BlockGrid, after: BlockGrid, id: u32, from: BlockPosition, to: BlockPosition)
    requires
        after.occupied_blocks@ == before.occupied_blocks@.remove(block_key(from)).insert(
            block_key(to),
            id,
        ),
    ensures
        after.occupant(to) == Some(id),
        from != to ==> after.occupant(from) is None,
        forall|q: BlockPosition|
            q != from && q != to ==> #[trigger] after.occupant(q) == before.occupant(q),
{
    lemma_block_key_injective(from, to);
    assert forall|q: BlockPosition| q != from && q != to implies #[trigger] after.occupant(q)
        == before.occupant(q) by {
        lemma_block_key_injective(q, from);
        lemma_block_key_injective(q, to);
    }
}

/// The center pixel of a block with non-negative coordinates lies in that block.
pub proof fn lemma_block_pixel_round_trip(block_size: u32, pos: BlockPosition)
    requires
        0 < block_size,
        0 <= pos.x,
        0 <= pos.y,
    ensures
        div_toward_zero(pos.x * block_size + block_size / 2, block_size as int) == pos.x,
        div_toward_zero(pos.y * block_size + block_size / 2, block_size as int) == pos.y,
{
    let b = block_size as int;
    assert((pos.x * b + b / 2) / b == pos.x) by (nonlinear_arith)
        requires
            b > 0,
            pos.x >= 0,
            0 <= b / 2 < b,
    ;
    assert((pos.y * b + b / 2) / b == pos.y) by (nonlinear_arith)
        requires
            b > 0,
            pos.y >= 0,
            0 <= b / 2 < b,
    ;
    assert(pos.x * b + b / 2 >= 0) by (nonlinear_arith)
        requires
            b > 0,
            pos.x >= 0,
    ;
    assert(pos.y * b + b / 2 >= 0) by (nonlinear_arith)
        requires
            b > 0,
            pos.y >= 0,
    ;
}

/// Inside the intersection a vehicle steps toward the heading it takes after the move: its
/// next block is one step from its block in that heading.
pub proof fn lemma_turn_step_follows_new_heading(p: BlockPosition, d: Direction, route: Route)
    ensures
        candidate_step(p, d, route, true) == step(p, heading_after_move(d, route, true)),
        candidate_step(p, d, route, false) == step(p, d),
        heading_after_move(d, route, false) == d,
{
}

/// A left turn in the intersection steps a quarter turn counterclockwise from straight
/// ahead (on the screen, whose y axis points down), a right turn a quarter turn clockwise,
/// and going straight steps straight ahead.
pub proof fn lemma_turns_are_quarter_turns(p: BlockPosition, d: Direction)
    requires
        i32::MIN < p.x < i32::MAX,
        i32::MIN < p.y < i32::MAX,
    ensures
        ({
            let ahead = step(p, d);
            let dx = ahead.x - p.x;
            let dy = ahead.y - p.y;
            &&& (dx == 0 && (dy == 1 || dy == -1)) || (dy == 0 && (dx == 1 || dx == -1))
            &&& candidate_step(p, d, Route::Straight, true) == ahead
            &&& candidate_step(p, d, Route::Left, true) == (BlockPosition {
                x: (p.x + dy) as i32,
                y: (p.y - dx) as i32,
            })
            &&& candidate_step(p, d, Route::Right, true) == (BlockPosition {
                x: (p.x - dy) as i32,
                y: (p.y + dx) as i32,
            })
        }),
{
    let ahead = step(p, d);
    match d {
        Direction::North => assert(ahead.x - p.x == 0 && ahead.y - p.y == -1),
        Direction::South => assert(ahead.x - p.x == 0 && ahead.y - p.y == 1),
        Direction::East => assert(ahead.x - p.x == 1 && ahead.y - p.y == 0),
        Direction::West => assert(ahead.x - p.x == -1 && ahead.y - p.y == 0),
    }
}

} // verus!
