//! The reservation grid of the intersection: cells, zones, the cells a vehicle's route
//! crosses, and the table of reservations granted to vehicles.

pub mod reservations;

use vstd::prelude::*;
use crate::compass::{Direction, Route};
use crate::geometry::position::div_toward_zero;

verus! {

/// Side of a cell of the reservation grid, in pixels.
pub const GRID_SIZE: i32 = 32;

/// A cell of the reservation grid.
#[derive(Debug, Clone, Copy, PartialEq, Eq, Hash, Structural)]
pub struct GridCoord {
    pub x: i32,
    pub y: i32,
}

/// Where a cell lies relative to the intersection, for a vehicle heading somewhere.
#[derive(Debug, Clone, Copy, PartialEq, Eq, Structural)]
pub enum IntersectionZone {
    Approach,
    Entry,
    Core,
    Exit,
    Clear,
}

/// Whether `r` is the integer square root of `n`: the largest `r` with `r * r <= n`.
pub open spec fn is_isqrt(n: int, r: int) -> bool {
    0 <= r && r * r <= n < (r + 1) * (r + 1)
}

/// The cells of a column `x` from row `lo` to row `hi`, both included.
pub open spec fn column_cells(x: int, lo: int, hi: int) -> Seq<GridCoord> {
    Seq::new(if hi >= lo { (hi - lo + 1) as nat } else { 0 }, |k: int| GridCoord { x: x as i32, y: (lo + k) as i32 })
}

/// The cells of a row `y` from column `lo` to column `hi`, both included.
pub open spec fn row_cells(y: int, lo: int, hi: int) -> Seq<GridCoord> {
    Seq::new(if hi >= lo { (hi - lo + 1) as nat } else { 0 }, |k: int| GridCoord { x: (lo + k) as i32, y: y as i32 })
}

/// The reservation grid over the window: cells of 32 pixels and the intersection as a
/// disc of cells around the grid's center.
#[derive(Debug, Clone, Copy, PartialEq, Eq, Structural)]
pub struct IntersectionGrid {
    pub grid_width: i32,
    pub grid_height: i32,
    pub intersection_center: GridCoord,
    /// Radius of the intersection, in cells.
    pub intersection_radius: i32,
}

impl IntersectionGrid {
    /// Coordinates stay far enough from the ends of `i32` for every computation below.
    pub open spec fn wf(self) -> bool {
        &&& -0x200_0000 <= self.intersection_center.x <= 0x200_0000
        &&& -0x200_0000 <= self.intersection_center.y <= 0x200_0000
        &&& 0 <= self.intersection_radius <= 0x100_0000
    }

    /// The column of incoming lane `lane` of a vehicle heading north or south; the
    /// center column for other headings.
    pub open spec fn lane_x(self, d: Direction, lane: usize) -> int {
        match d {
            Direction::North => self.intersection_center.x - 3 + (lane as i32),
            Direction::South => self.intersection_center.x + 3 - (lane as i32),
            _ => self.intersection_center.x as int,
        }
    }

    /// The row of incoming lane `lane` of a vehicle heading east or west; the center row
    /// for other headings.
    pub open spec fn lane_y(self, d: Direction, lane: usize) -> int {
        match d {
            Direction::East => self.intersection_center.y - 3 + (lane as i32),
            Direction::West => self.intersection_center.y + 3 - (lane as i32),
            _ => self.intersection_center.y as int,
        }
    }

    /// How far, in cells, `c` lies before the intersection's near edge for a vehicle
    /// heading `d`.
    pub open spec fn approach_distance(self, c: GridCoord, d: Direction) -> int {
        let ctr = self.intersection_center;
        let r = self.intersection_radius;
        match d {
            Direction::North => (ctr.y + r) - c.y,
            Direction::South => c.y - (ctr.y - r),
            Direction::East => c.x - (ctr.x - r),
            Direction::West => (ctr.x + r) - c.x,
        }
    }

    /// The zone of cell `c` at (rounded-down) distance `dist` from the center, for a
    /// vehicle heading `d`: rings of the disc from the outside in are entry, core and
    /// exit; beyond them a vehicle up to 8 cells before the near edge approaches.
    pub open spec fn zone(self, c: GridCoord, d: Direction, dist: int) -> IntersectionZone {
        let r = self.intersection_radius;
        if dist > r + 5 {
            let a = self.approach_distance(c, d);
            if a > 0 && a <= 8 {
                IntersectionZone::Approach
            } else {
                IntersectionZone::Clear
            }
        } else if dist > r + 2 {
            IntersectionZone::Entry
        } else if dist > r - 2 {
            IntersectionZone::Core
        } else if dist > r - 5 {
            IntersectionZone::Exit
        } else {
            IntersectionZone::Clear
        }
    }

    /// The cells reserved for a vehicle heading `d` on route `route` in incoming lane
    /// `lane`: straight routes cross the whole disc along their lane; a right turn from
    /// the south runs up its column from just below the center to the far edge, then along
    /// its exit row; other routes reserve the center cell.
    pub open spec fn vehicle_path(self, d: Direction, route: Route, lane: usize) -> Seq<GridCoord> {
        let c = self.intersection_center;
        let r = self.intersection_radius;
        match (d, route) {
            (Direction::North, Route::Straight) | (Direction::South, Route::Straight) =>
                column_cells(self.lane_x(d, lane), c.y - r, c.y + r),
            (Direction::East, Route::Straight) | (Direction::West, Route::Straight) =>
                row_cells(self.lane_y(d, lane), c.x - r, c.x + r),
            (Direction::North, Route::Right) => column_cells(
                self.lane_x(Direction::North, lane),
                c.y - 2,
                c.y + r,
            ) + row_cells(self.lane_y(Direction::East, lane), self.lane_x(Direction::North, lane), c.x + r),
            _ => seq![c],
        }
    }

    /// Whether the lane columns and rows that `vehicle_path` uses for this heading,
    /// route and lane are `i32` values.
    pub open spec fn path_lanes_fit(self, d: Direction, route: Route, lane: usize) -> bool {
        match (d, route) {
            (Direction::North, Route::Straight) | (Direction::South, Route::Straight) =>
                i32::MIN <= self.lane_x(d, lane) <= i32::MAX,
            (Direction::East, Route::Straight) | (Direction::West, Route::Straight) =>
                i32::MIN <= self.lane_y(d, lane) <= i32::MAX,
            (Direction::North, Route::Right) =>
                i32::MIN <= self.lane_x(Direction::North, lane) <= i32::MAX
                && i32::MIN <= self.lane_y(Direction::East, lane) <= i32::MAX,
            _ => true,
        }
    }

    /// The grid over a `window_width` by `window_height` window: the intersection is a
    /// disc of radius 6 cells around the center cell.
    pub fn new(window_width: u32, window_height: u32) -> (g: IntersectionGrid)
        ensures
            g.grid_width == div_toward_zero((window_width as i32) as int, GRID_SIZE as int),
            g.grid_height == div_toward_zero((window_height as i32) as int, GRID_SIZE as int),
            g.intersection_center == (GridCoord {
                x: div_toward_zero(g.grid_width as int, 2) as i32,
                y: div_toward_zero(g.grid_height as int, 2) as i32,
            }),
            g.intersection_radius == 6,
            g.wf(),
    {
        let grid_width = (window_width as i32) / GRID_SIZE;
        let grid_height = (window_height as i32) / GRID_SIZE;
        IntersectionGrid {
            grid_width,
            grid_height,
            intersection_center: GridCoord { x: grid_width / 2, y: grid_height / 2 },
            intersection_radius: 6,
        }
    }

    /// The cell holding pixel `(x, y)` (division rounds toward zero).
    pub fn pixel_to_grid(&self, x: i32, y: i32) -> (c: GridCoord)
        ensures
            c.x == div_toward_zero(x as int, GRID_SIZE as int),
            c.y == div_toward_zero(y as int, GRID_SIZE as int),
    {
        GridCoord { x: x / GRID_SIZE, y: y / GRID_SIZE }
    }

    /// Distance from cell `coord` to the center cell, rounded down to a whole cell.
    pub fn distance_to_intersection_center(&self, coord: GridCoord) -> (d: i32)
        requires
            ({
                let dx = coord.x - self.intersection_center.x;
                let dy = coord.y - self.intersection_center.y;
                dx * dx + dy * dy <= i32::MAX
            }),
        ensures
            is_isqrt(
                (coord.x - self.intersection_center.x) * (coord.x - self.intersection_center.x)
                    + (coord.y - self.intersection_center.y) * (coord.y - self.intersection_center.y),
                d as int,
            ),
    {
        let dx: i64 = coord.x as i64 - self.intersection_center.x as i64;
        let dy: i64 = coord.y as i64 - self.intersection_center.y as i64;
        proof {
            assert(dx * dx >= 0 && dy * dy >= 0) by (nonlinear_arith);
            assert(dx * dx <= 0x4_0000_0000_0000_0000) by (nonlinear_arith)
                requires
                    -0x2_0000_0000 <= dx <= 0x2_0000_0000,
            ;
            assert(dy * dy <= 0x4_0000_0000_0000_0000) by (nonlinear_arith)
                requires
                    -0x2_0000_0000 <= dy <= 0x2_0000_0000,
            ;
        }
        let n = (dx * dx + dy * dy) as u64;
        isqrt(n) as i32
    }

    /// The zone of cell `coord` for a vehicle heading `direction`.
    pub fn get_intersection_zone(&self, coord: GridCoord, direction: &Direction) -> (z:
        IntersectionZone)
        requires
            self.wf(),
            ({
                let dx = coord.x - self.intersection_center.x;
                let dy = coord.y - self.intersection_center.y;
                dx * dx + dy * dy <= i32::MAX
            }),
        ensures
            exists|dist: int|
                #[trigger] is_isqrt(
                    (coord.x - self.intersection_center.x) * (coord.x - self.intersection_center.x)
                        + (coord.y - self.intersection_center.y) * (coord.y
                        - self.intersection_center.y),
                    dist,
                ) && z == self.zone(coord, *direction, dist),
    {
        let distance_to_center = self.distance_to_intersection_center(coord) as i64;
        let r = self.intersection_radius as i64;
        let c = self.intersection_center;
        let z = if distance_to_center > r + 5 {
            let approach_distance: i64 = match direction {
                Direction::North => (c.y as i64 + r) - coord.y as i64,
                Direction::South => coord.y as i64 - (c.y as i64 - r),
                Direction::East => coord.x as i64 - (c.x as i64 - r),
                Direction::West => (c.x as i64 + r) - coord.x as i64,
            };
            if approach_distance > 0 && approach_distance <= 8 {
                IntersectionZone::Approach
            } else {
                IntersectionZone::Clear
            }
        } else if distance_to_center > r + 2 {
            IntersectionZone::Entry
        } else if distance_to_center > r - 2 {
            IntersectionZone::Core
        } else if distance_to_center > r - 5 {
            IntersectionZone::Exit
        } else {
            IntersectionZone::Clear
        };
        assert(z == self.zone(coord, *direction, distance_to_center as int));
        z
    }

    /// The column of incoming lane `lane` for heading `direction` (see `lane_x`).
    pub fn get_lane_x_for_direction(&self, direction: Direction, lane: usize) -> (x: i32)
        requires
            self.wf(),
            i32::MIN <= self.lane_x(direction, lane) <= i32::MAX,
        ensures
            x == self.lane_x(direction, lane),
    {
        let l = lane as i32;
        let c = self.intersection_center;
        match direction {
            Direction::North => {
                c.x - 3 + l
            },
            Direction::South => c.x + 3 - l,
            _ => c.x,
        }
    }

    /// The row of incoming lane `lane` for heading `direction` (see `lane_y`).
    pub fn get_lane_y_for_direction(&self, direction: Direction, lane: usize) -> (y: i32)
        requires
            self.wf(),
            i32::MIN <= self.lane_y(direction, lane) <= i32::MAX,
        ensures
            y == self.lane_y(direction, lane),
    {
        let l = lane as i32;
        let c = self.intersection_center;
        match direction {
            Direction::East => c.y - 3 + l,
            Direction::West => c.y + 3 - l,
            _ => c.y,
        }
    }

    /// Whether the `count` cells ahead of pixel position `position` in heading `d` have
    /// `i32` coordinates.
    pub open spec fn next_cells_fit(self, position: (i32, i32), d: Direction, count: int) -> bool {
        let cur = self.pixel_to_cell(position);
        match d {
            Direction::North => cur.y - count >= i32::MIN,
            Direction::South => cur.y + count <= i32::MAX,
            Direction::East => cur.x + count <= i32::MAX,
            Direction::West => cur.x - count >= i32::MIN,
        }
    }

    /// The `count` cells ahead of pixel position `position` in heading `direction`.
    pub fn get_next_coordinates(&self, position: (i32, i32), direction: Direction, count: usize)
        -> (cells: Vec<GridCoord>)
        requires
            count <= i32::MAX,
            self.next_cells_fit(position, direction, count as int),
        ensures
            cells@.len() == count,
            forall|i: int| 0 <= i < count ==> #[trigger] cells@[i] == self.next_cell(position, direction, i),
    {
        let current = self.pixel_to_grid(position.0, position.1);
        let mut coords: Vec<GridCoord> = Vec::new();
        let mut i: usize = 1;
        while i <= count
            invariant
                1 <= i <= count + 1,
                count <= i32::MAX,
                self.next_cells_fit(position, direction, count as int),
                current == self.pixel_to_cell(position),
                coords@.len() == i - 1,
                forall|k: int|
                    0 <= k < i - 1 ==> #[trigger] coords@[k] == match direction {
                        Direction::North => GridCoord { x: current.x, y: (current.y - (k + 1)) as i32 },
                        Direction::South => GridCoord { x: current.x, y: (current.y + (k + 1)) as i32 },
                        Direction::East => GridCoord { x: (current.x + (k + 1)) as i32, y: current.y },
                        Direction::West => GridCoord { x: (current.x - (k + 1)) as i32, y: current.y },
                    },
            decreases count + 1 - i,
        {
            let step = i as i32;
            let next_coord = match direction {
                Direction::North => GridCoord { x: current.x, y: current.y - step },
                Direction::South => GridCoord { x: current.x, y: current.y + step },
                Direction::East => GridCoord { x: current.x + step, y: current.y },
                Direction::West => GridCoord { x: current.x - step, y: current.y },
            };
            coords.push(next_coord);
            i = i + 1;
        }
        coords
    }

    /// The cell `i + 1` cells ahead, in heading `d`, of the cell holding pixel position
    /// `position`.
    pub open spec fn next_cell(self, position: (i32, i32), d: Direction, i: int) -> GridCoord {
        let cur = self.pixel_to_cell(position);
        match d {
            Direction::North => GridCoord { x: cur.x, y: (cur.y - (i + 1)) as i32 },
            Direction::South => GridCoord { x: cur.x, y: (cur.y + (i + 1)) as i32 },
            Direction::East => GridCoord { x: (cur.x + (i + 1)) as i32, y: cur.y },
            Direction::West => GridCoord { x: (cur.x - (i + 1)) as i32, y: cur.y },
        }
    }

    /// The cell holding a pixel position, as `pixel_to_grid` computes it.
    pub open spec fn pixel_to_cell(self, position: (i32, i32)) -> GridCoord {
        GridCoord {
            x: div_toward_zero(position.0 as int, GRID_SIZE as int) as i32,
            y: div_toward_zero(position.1 as int, GRID_SIZE as int) as i32,
        }
    }

    /// The cells to reserve for a vehicle heading `direction` on `route` in incoming
    /// lane `lane` (see `vehicle_path`).
    pub fn calculate_vehicle_path(&self, direction: Direction, route: Route, lane: usize) -> (path:
        Vec<GridCoord>)
        requires
            self.wf(),
            self.path_lanes_fit(direction, route, lane),
        ensures
            path@ == self.vehicle_path(direction, route, lane),
    {
        let c = self.intersection_center;
        let r = self.intersection_radius;
        match (direction, route) {
            (Direction::North, Route::Straight) | (Direction::South, Route::Straight) => {
                let lane_x = self.get_lane_x_for_direction(direction, lane);
                column(lane_x, c.y - r, c.y + r)
            },
            (Direction::East, Route::Straight) | (Direction::West, Route::Straight) => {
                let lane_y = self.get_lane_y_for_direction(direction, lane);
                row(lane_y, c.x - r, c.x + r)
            },
            (Direction::North, Route::Right) => {
                let start_x = self.get_lane_x_for_direction(Direction::North, lane);
                let end_y = self.get_lane_y_for_direction(Direction::East, lane);
                let mut path = column(start_x, c.y - 2, c.y + r);
                let mut tail = row(end_y, start_x, c.x + r);
                path.append(&mut tail);
                path
            },
            _ => {
                let mut path: Vec<GridCoord> = Vec::new();
                path.push(c);
                proof {
                    assert(path@ =~= seq![c]);
                }
                path
            },
        }
    }
}

/// The cells of column `x` from row `lo` to row `hi`, both included.
fn column(x: i32, lo: i32, hi: i32) -> (cells: Vec<GridCoord>)
    requires
        hi < i32::MAX,
    ensures
        cells@ == column_cells(x as int, lo as int, hi as int),
{
    let mut cells: Vec<GridCoord> = Vec::new();
    let mut y: i32 = lo;
    if lo > hi {
        proof {
            assert(cells@ =~= column_cells(x as int, lo as int, hi as int));
        }
        return cells;
    }
    while y <= hi
        invariant
            lo <= y <= hi + 1,
            hi < i32::MAX,
            cells@ == column_cells(x as int, lo as int, y - 1),
        decreases hi + 1 - y,
    {
        let ghost before = cells@;
        cells.push(GridCoord { x, y });
        proof {
            assert(cells@ =~= column_cells(x as int, lo as int, y as int));
        }
        y = y + 1;
    }
    cells
}

/// The cells of row `y` from column `lo` to column `hi`, both included.
fn row(y: i32, lo: i32, hi: i32) -> (cells: Vec<GridCoord>)
    requires
        hi < i32::MAX,
    ensures
        cells@ == row_cells(y as int, lo as int, hi as int),
{
    let mut cells: Vec<GridCoord> = Vec::new();
    let mut x: i32 = lo;
    if lo > hi {
        proof {
            assert(cells@ =~= row_cells(y as int, lo as int, hi as int));
        }
        return cells;
    }
    while x <= hi
        invariant
            lo <= x <= hi + 1,
            hi < i32::MAX,
            cells@ == row_cells(y as int, lo as int, x - 1),
        decreases hi + 1 - x,
    {
        cells.push(GridCoord { x, y });
        proof {
            assert(cells@ =~= row_cells(y as int, lo as int, x as int));
        }
        x = x + 1;
    }
    cells
}

/// The integer square root of `n`.
fn isqrt(n: u64) -> (r: u64)
    requires
        n <= i32::MAX,
    ensures
        is_isqrt(n as int, r as int),
        r <= 46341,
{
    // Binary search for the largest r with r * r <= n, in [lo, hi).
    let mut lo: u64 = 0;
    let mut hi: u64 = 46341;
    proof {
        assert(46341 * 46341 > i32::MAX);
    }
    while hi - lo > 1
        invariant
            lo < hi <= 46341,
            lo * lo <= n,
            n < hi * hi,
        decreases hi - lo,
    {
        let mid = lo + (hi - lo) / 2;
        proof {
            assert(mid * mid <= 46341 * 46341) by (nonlinear_arith)
                requires
                    mid <= 46341,
            ;
        }
        if mid * mid <= n {
            lo = mid;
        } else {
            hi = mid;
        }
    }
    proof {
        assert(hi == lo + 1);
    }
    lo
}

/// A vehicle going straight reserves, in order, every cell across the intersection's
/// diameter along its own incoming lane: heading north in lane `l` the column
/// `center.x - 3 + l`, heading south the column `center.x + 3 - l`, heading east the row
/// `center.y - 3 + l`, heading west the row `center.y + 3 - l`.
pub proof fn lemma_straight_path_keeps_its_lane(g: IntersectionGrid, d: Direction, lane: usize)
    requires
        g.wf(),
        g.path_lanes_fit(d, Route::Straight, lane),
    ensures
        ({
            let p = g.vehicle_path(d, Route::Straight, lane);
            let c = g.intersection_center;
            let r = g.intersection_radius;
            let l = lane as i32;
            &&& p.len() == 2 * r + 1
            &&& forall|k: int|
                0 <= k < p.len() ==> #[trigger] p[k] == match d {
                    Direction::North => GridCoord { x: (c.x - 3 + l) as i32, y: (c.y - r + k) as i32 },
                    Direction::South => GridCoord { x: (c.x + 3 - l) as i32, y: (c.y - r + k) as i32 },
                    Direction::East => GridCoord { x: (c.x - r + k) as i32, y: (c.y - 3 + l) as i32 },
                    Direction::West => GridCoord { x: (c.x - r + k) as i32, y: (c.y + 3 - l) as i32 },
                }
        }),
{
}

/// A vehicle heading north and turning right reserves the cells of its lane's column
/// from two rows above the center row down to the intersection's southern edge, then the
/// row of the matching eastbound lane from that column to the intersection's eastern edge.
pub proof fn lemma_north_right_path(g: IntersectionGrid, lane: usize)
    requires
        g.wf(),
        g.path_lanes_fit(Direction::North, Route::Right, lane),
    ensures
        ({
            let p = g.vehicle_path(Direction::North, Route::Right, lane);
            let c = g.intersection_center;
            let r = g.intersection_radius;
            let l = lane as i32;
            let col = c.x - 3 + l;
            let up = r + 3;
            &&& col <= c.x + r ==> p.len() == up + (c.x + r - col + 1)
            &&& forall|k: int|
                0 <= k < up ==> #[trigger] p[k] == GridCoord { x: col as i32, y: (c.y - 2 + k) as i32 }
            &&& forall|k: int|
                up <= k < p.len() ==> #[trigger] p[k] == GridCoord {
                    x: (col + (k - up)) as i32,
                    y: (c.y - 3 + l) as i32,
                }
        }),
{
}

} // verus!
