use vstd::prelude::*;
use crate::block_system::{BlockGrid, BlockPosition, BlockType, BlockVehicle, VehicleState};
use crate::compass::{random_route, Direction, Route};

verus! {

/// Side of a block of the grid, in pixels.
pub const BLOCK_SIZE: u32 = 32;

/// Lane offset, in blocks from the road's edge, of the incoming lanes of a route:
/// left turns on the outer lanes, straight on the middle ones, right turns inside.
pub open spec fn route_lane_offset(route: Route) -> int {
    match route {
        Route::Left => 0,
        Route::Straight => 2,
        Route::Right => 4,
    }
}

/// The block on which a vehicle heading `direction` on `route` enters the grid: on the
/// grid's edge behind it, on the lane of its route.
pub open spec fn spawn_block(grid: BlockGrid, direction: Direction, route: Route) -> BlockPosition {
    let c = grid.intersection_center;
    let o = route_lane_offset(route);
    match direction {
        Direction::North => BlockPosition { x: (c.x - 3 + o) as i32, y: (grid.grid_height - 1) as i32 },
        Direction::South => BlockPosition { x: (c.x + 3 - o) as i32, y: 0 },
        Direction::East => BlockPosition { x: 0, y: (c.y - 3 + o) as i32 },
        Direction::West => BlockPosition { x: (grid.grid_width - 1) as i32, y: (c.y + 3 - o) as i32 },
    }
}

/// Whether the spawn blocks can be computed without overflow.
pub open spec fn spawn_blocks_fit(grid: BlockGrid) -> bool {
    &&& i32::MIN + 3 <= grid.intersection_center.x <= i32::MAX - 3
    &&& i32::MIN + 3 <= grid.intersection_center.y <= i32::MAX - 3
    &&& grid.grid_width > i32::MIN
    &&& grid.grid_height > i32::MIN
}

/// Number of vehicles of `vs` in state `s`.
pub open spec fn count_in_state(vs: Seq<BlockVehicle>, s: VehicleState) -> int
    decreases vs.len(),
{
    if vs.len() == 0 {
        0
    } else {
        count_in_state(vs.drop_last(), s) + if vs.last().state == s {
            1int
        } else {
            0int
        }
    }
}

proof fn lemma_count_bounded(vs: Seq<BlockVehicle>, s: VehicleState)
    ensures
        0 <= count_in_state(vs, s) <= vs.len(),
    decreases vs.len(),
{
    if vs.len() > 0 {
        lemma_count_bounded(vs.drop_last(), s);
    }
}

/// The block-grid simulation: the grid, its vehicles, and the id of the next vehicle.
/// Timing (cooldowns and the pace of each vehicle) is kept by the caller.
pub struct BlockRenderer {
    pub grid: BlockGrid,
    pub vehicles: Vec<BlockVehicle>,
    pub next_vehicle_id: u32,
}

impl BlockRenderer {
    /// What spawning a vehicle heading `direction` on `route` from `before` leads to:
    /// it is placed (result `r`) exactly when its spawn block is free and on the road; a
    /// free block uses up an id even when it lies off the road.
    pub open spec fn spawn_outcome(
        before: BlockRenderer,
        after: BlockRenderer,
        direction: Direction,
        route: Route,
        r: bool,
    ) -> bool {
        let pos = spawn_block(before.grid, direction, route);
        let id = before.next_vehicle_id;
        let free = before.grid.occupant(pos) is None;
        &&& r == (free && before.grid.block_type(pos) != BlockType::Outside)
        &&& after.next_vehicle_id == if free { id + 1 } else { id as int }
        &&& after.grid.blocks == before.grid.blocks
        &&& after.grid.same_layout(before.grid)
        &&& r ==> {
            &&& after.vehicles@ == before.vehicles@.push(
                BlockVehicle { id, block_position: pos, direction, route, state: VehicleState::Moving },
            )
            &&& after.grid.occupied_blocks@ == before.grid.occupied_blocks@.insert(
                crate::block_system::block_key(pos),
                id,
            )
        }
        &&& !r ==> {
            &&& after.vehicles@ == before.vehicles@
            &&& after.grid.occupied_blocks@ == before.grid.occupied_blocks@
        }
    }

    /// A grid of 32-pixel blocks over the window, with no vehicle.
    pub fn new(window_width: u32, window_height: u32) -> (r: BlockRenderer)
        ensures
            r.grid.block_size == BLOCK_SIZE,
            r.grid.grid_width == (window_width / BLOCK_SIZE) as i32,
            r.grid.grid_height == (window_height / BLOCK_SIZE) as i32,
            r.grid.occupied_blocks@ == Map::<u64, u32>::empty(),
            forall|p: BlockPosition| #[trigger] r.grid.block_type(p) == r.grid.layout_type(p),
            r.vehicles@.len() == 0,
            r.next_vehicle_id == 0,
    {
        let grid = BlockGrid::new(window_width, window_height, BLOCK_SIZE);
        BlockRenderer { grid, vehicles: Vec::new(), next_vehicle_id: 0 }
    }

    /// Spawns a vehicle heading `direction` on a route drawn at random (see
    /// `spawn_outcome`); returns whether it was placed.
    pub fn spawn_vehicle(&mut self, direction: Direction) -> (r: bool)
        requires
            old(self).next_vehicle_id < u32::MAX,
            spawn_blocks_fit(old(self).grid),
        ensures
            exists|route: Route| Self::spawn_outcome(*old(self), *final(self), direction, route, r),
    {
        let route = random_route();
        self.spawn_vehicle_on_route(direction, route)
    }

    /// Spawns a vehicle heading `direction` on `route` on its spawn block, if the block is
    /// free and on the road; returns whether it was placed. A free block uses up an id even
    /// when it lies off the road and no vehicle is placed.
    pub fn spawn_vehicle_on_route(&mut self, direction: Direction, route: Route) -> (r: bool)
        requires
            old(self).next_vehicle_id < u32::MAX,
            spawn_blocks_fit(old(self).grid),
        ensures
            Self::spawn_outcome(*old(self), *final(self), direction, route, r),
    {
        let spawn_pos = self.calculate_spawn_position(direction, route);
        if let Some(pos) = spawn_pos {
            let vehicle_id = self.next_vehicle_id;
            self.next_vehicle_id = self.next_vehicle_id + 1;
            let vehicle = BlockVehicle::new(vehicle_id, pos, direction, route);
            if self.grid.add_vehicle(vehicle_id, pos) {
                self.vehicles.push(vehicle);
                return true;
            }
        }
        false
    }

    /// The spawn block of a vehicle heading `direction` on `route`, if it is free.
    fn calculate_spawn_position(&self, direction: Direction, route: Route) -> (r: Option<
        BlockPosition,
    >)
        requires
            spawn_blocks_fit(self.grid),
        ensures
            r == if self.grid.occupant(spawn_block(self.grid, direction, route)) is None {
                Some(spawn_block(self.grid, direction, route))
            } else {
                None::<BlockPosition>
            },
    {
        let center = self.grid.intersection_center;
        let lane_offset: i32 = match route {
            Route::Left => 0,
            Route::Straight => 2,
            Route::Right => 4,
        };
        let spawn_pos = match direction {
            Direction::North => BlockPosition {
                x: center.x - 3 + lane_offset,
                y: self.grid.grid_height - 1,
            },
            Direction::South => BlockPosition { x: center.x + 3 - lane_offset, y: 0 },
            Direction::East => BlockPosition { x: 0, y: center.y - 3 + lane_offset },
            Direction::West => BlockPosition {
                x: self.grid.grid_width - 1,
                y: center.y + 3 - lane_offset,
            },
        };
        if !self.grid.is_block_occupied(spawn_pos) {
            Some(spawn_pos)
        } else {
            None
        }
    }

    /// Number of vehicles, of moving vehicles and of waiting vehicles.
    pub fn get_statistics(&self) -> (r: (usize, usize, usize))
        ensures
            r.0 == self.vehicles@.len(),
            r.1 == count_in_state(self.vehicles@, VehicleState::Moving),
            r.2 == count_in_state(self.vehicles@, VehicleState::Waiting),
    {
        let mut moving: usize = 0;
        let mut waiting: usize = 0;
        let mut i: usize = 0;
        while i < self.vehicles.len()
            invariant
                i <= self.vehicles@.len(),
                moving == count_in_state(self.vehicles@.subrange(0, i as int), VehicleState::Moving),
                waiting == count_in_state(self.vehicles@.subrange(0, i as int), VehicleState::Waiting),
            decreases self.vehicles@.len() - i,
        {
            proof {
                let sub = self.vehicles@.subrange(0, i + 1);
                assert(sub.drop_last() == self.vehicles@.subrange(0, i as int));
                lemma_count_bounded(self.vehicles@.subrange(0, i as int), VehicleState::Moving);
                lemma_count_bounded(self.vehicles@.subrange(0, i as int), VehicleState::Waiting);
            }
            if self.vehicles[i].state == VehicleState::Moving {
                moving = moving + 1;
            } else if self.vehicles[i].state == VehicleState::Waiting {
                waiting = waiting + 1;
            }
            i = i + 1;
        }
        proof {
            assert(self.vehicles@.subrange(0, i as int) == self.vehicles@);
        }
        (self.vehicles.len(), moving, waiting)
    }
}

} // verus!
