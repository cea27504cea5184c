use vstd::prelude::*;
use crate::direction::{
    spec_opposite, spec_turn_direction, Direction, TurnDirection,
};
use crate::geometry::position::{Position, TimedPosition};
use crate::geometry::rect::{clamped_position, clamped_size, Rect};
use crate::geometry::rect_extensions::{spec_in_bounds, RectExtensions};
use crate::geometry::spawn::{get_spawn_position, spec_spawn_position};
use crate::intersection::turning::{get_turning_position, spec_turning_position};
use crate::random::random_below;
use crate::vehicles::path_calculator::{plan, planned_path, PathCalculator, PathError};

verus! {

/// An opaque RGBA color.
#[derive(Debug, Clone, Copy, PartialEq, Eq, Structural)]
pub struct Color {
    pub r: u8,
    pub g: u8,
    pub b: u8,
    pub a: u8,
}

impl Color {
    /// The opaque color with the given red, green and blue components.
    #[allow(non_snake_case)]
    pub fn RGB(r: u8, g: u8, b: u8) -> (c: Color)
        ensures
            c == (Color { r, g, b, a: 255 }),
    {
        Color { r, g, b, a: 255 }
    }
}

/// A vehicle on the road: its rectangle on screen, its route through the intersection and
/// the timed path it has planned.
#[derive(Debug)]
pub struct Vehicle {
    pub id: usize,
    pub rect: Rect,
    pub color: Color,
    /// Side of the window the vehicle enters from.
    pub initial_position: Direction,
    /// Direction of travel on entry: away from the entry side.
    pub start_direction: Direction,
    /// Direction of travel after the turn, and side the vehicle leaves towards.
    pub target_direction: Direction,
    pub turn_direction: TurnDirection,
    /// The column or row on which the vehicle turns (see `get_turning_position`).
    pub turn_position: (Option<i32>, Option<i32>),
    /// The positions still ahead, one per tick.
    pub path: Vec<TimedPosition>,
    pub texture_name: String,
    pub texture_index: usize,
    /// Rotation of the sprite in degrees.
    pub rotation: i32,
    /// Display speed class, from 1 (slow) to 3 (fast); it does not affect movement.
    pub velocity_type: i32,
}

/// Sprite rotation, in degrees, given to a vehicle entering from `initial`.
pub open spec fn spawn_rotation(initial: Direction) -> i32 {
    match initial {
        Direction::Up => 0,
        Direction::Right => 90,
        Direction::Down => 180,
        Direction::Left => 270,
    }
}

/// `v` with its path replaced by `path`.
pub open spec fn with_path(v: Vehicle, path: Vec<TimedPosition>) -> Vehicle {
    Vehicle { path, ..v }
}

/// `t` is a vehicle as `Vehicle::new` builds it before planning its path: with id `id`,
/// entering on side `initial` bound for `target`, a `size` square at its spawn position,
/// a random opaque color, sprite and speed class, and no path yet.
pub open spec fn spawn_template(
    t: Vehicle,
    initial: Direction,
    target: Direction,
    size: u32,
    id: usize,
) -> bool {
    let start = spec_spawn_position(initial, target);
    &&& t.id == id
    &&& t.initial_position == initial
    &&& t.target_direction == target
    &&& t.route_consistent()
    &&& t.rect == Rect::spec_new(start.x, start.y, size, size)
    &&& t.path@.len() == 0
    &&& t.texture_index < 3
    &&& t.color.a == 255
    &&& 1 <= t.velocity_type <= 3
    &&& t.rotation == spawn_rotation(initial)
}

/// Sprite rotation after a step by `(dx, dy)`: the heading of an axis-aligned step, the
/// previous rotation for no step or a diagonal one.
pub open spec fn rotation_after_step(rotation: i32, dx: int, dy: int) -> i32 {
    if dx > 0 && dy == 0 {
        90
    } else if dx < 0 && dy == 0 {
        270
    } else if dx == 0 && dy > 0 {
        180
    } else if dx == 0 && dy < 0 {
        0
    } else {
        rotation
    }
}

/// The corner of a vehicle's rectangle.
pub open spec fn corner(v: Vehicle) -> Position {
    Position { x: v.rect.left() as i32, y: v.rect.top() as i32 }
}

/// Where a vehicle's corner stands after its next move: the next position of its path,
/// clamped into the range of rectangle coordinates, or where it stands at the end of its
/// path.
pub open spec fn next_corner(v: Vehicle) -> Position {
    if v.path@.len() > 0 {
        Position {
            x: clamped_position(v.path@[0].position.x) as i32,
            y: clamped_position(v.path@[0].position.y) as i32,
        }
    } else {
        corner(v)
    }
}

/// `after` is `before` moved to the next position of its path, its sprite turned to
/// face the step; at the end of its path a vehicle stays as it is.
pub open spec fn advanced_from(after: Vehicle, before: Vehicle) -> bool {
    if before.path@.len() == 0 {
        after == before
    } else {
        let next = before.path@[0].position;
        &&& after.path@ == before.path@.drop_first()
        &&& after.rect.left() == clamped_position(next.x)
        &&& after.rect.top() == clamped_position(next.y)
        &&& after.rect.spec_width() == before.rect.spec_width()
        &&& after.rect.spec_height() == before.rect.spec_height()
        &&& after.rotation == rotation_after_step(before.rotation, next.x - before.rect.left(),
            next.y - before.rect.top())
        &&& after.id == before.id
        &&& after.color == before.color
        &&& after.initial_position == before.initial_position
        &&& after.start_direction == before.start_direction
        &&& after.target_direction == before.target_direction
        &&& after.turn_direction == before.turn_direction
        &&& after.turn_position == before.turn_position
        &&& after.texture_name == before.texture_name
        &&& after.texture_index == before.texture_index
        &&& after.velocity_type == before.velocity_type
    }
}

impl Vehicle {
    /// The route fields agree with the entry and exit sides.
    pub open spec fn route_consistent(self) -> bool {
        &&& self.initial_position != self.target_direction
        &&& self.start_direction == spec_opposite(self.initial_position)
        &&& self.turn_direction == spec_turn_direction(self.initial_position,
            self.target_direction)
        &&& self.turn_position == spec_turning_position(self.initial_position,
            self.target_direction)
    }

    /// A vehicle spawned on side `initial_position` heading for `target_direction`, with a
    /// square of side `size`, a random color, sprite and display speed class, and a path
    /// planned around `all_vehicles`.
    pub fn new(
        initial_position: Direction,
        target_direction: Direction,
        size: u32,
        all_vehicles: &Vec<Vehicle>,
        id: usize,
    ) -> (r: Result<Vehicle, PathError>)
        requires
            initial_position != target_direction,
        ensures
            r matches Ok(v) ==> {
                let start = spec_spawn_position(initial_position, target_direction);
                &&& v.id == id
                &&& v.initial_position == initial_position
                &&& v.target_direction == target_direction
                &&& v.route_consistent()
                &&& v.rect.left() == start.x && v.rect.top() == start.y
                &&& v.rect.spec_width() == clamped_size(size)
                &&& v.rect.spec_height() == clamped_size(size)
                &&& v.texture_index < 3
                &&& v.color.a == 255
                &&& 1 <= v.velocity_type <= 3
                &&& v.rotation == spawn_rotation(initial_position)
                &&& planned_path(v, start, all_vehicles@, v.path@)
            },
            r matches Ok(v) ==> exists|t: Vehicle|
                #[trigger] spawn_template(t, initial_position, target_direction, size, id)
                    && v == with_path(t, v.path) && plan(
                    t,
                    spec_spawn_position(initial_position, target_direction),
                    all_vehicles@,
                ) == Ok::<Seq<TimedPosition>, PathError>(v.path@),
            r matches Err(e) ==> exists|t: Vehicle|
                #[trigger] spawn_template(t, initial_position, target_direction, size, id) && plan(
                    t,
                    spec_spawn_position(initial_position, target_direction),
                    all_vehicles@,
                ) == Err::<Seq<TimedPosition>, PathError>(e),
            all_vehicles@.len() == 0 ==> r is Ok,
    {
        let start_position = get_spawn_position(initial_position, target_direction);
        let color = Self::random_color();
        let rect = Rect::new(start_position.x, start_position.y, size, size);
        let turn_direction = Direction::turn_direction(initial_position, target_direction);
        let start_direction = initial_position.opposite();
        let turn_position = get_turning_position(initial_position, target_direction);
        let texture_index = random_below(3) as usize;
        let rotation: i32 = match initial_position {
            Direction::Up => 0,
            Direction::Right => 90,
            Direction::Down => 180,
            Direction::Left => 270,
        };
        let velocity_type: i32 = 1 + random_below(3) as i32;
        let mut vehicle = Vehicle {
            id,
            rect,
            color,
            initial_position,
            start_direction,
            target_direction,
            turn_direction,
            turn_position,
            path: Vec::new(),
            texture_name: "car".to_string(),
            texture_index,
            rotation,
            velocity_type,
        };
        let ghost template = vehicle;
        assert(spawn_template(template, initial_position, target_direction, size, id));
        let path = PathCalculator::calculate_path(&vehicle, &start_position, all_vehicles)?;
        vehicle.path = path;
        assert(vehicle == with_path(template, vehicle.path));
        Ok(vehicle)
    }

    /// An opaque color with red, green and blue components drawn at random.
    fn random_color() -> (c: Color)
        ensures
            c.a == 255,
    {
        let r = random_below(256) as u8;
        let g = random_below(256) as u8;
        let b = random_below(256) as u8;
        Color::RGB(r, g, b)
    }

    /// Advances the vehicle to the next position of its path, turning its sprite to face
    /// the step; a vehicle at the end of its path stays put (see `advanced_from`).
    pub fn update_position(&mut self)
        ensures
            advanced_from(*final(self), *old(self)),
            corner(*final(self)) == next_corner(*old(self)),
    {
        if self.path.len() > 0 {
            let next = self.path.remove(0);
            let dx: i64 = next.position.x as i64 - self.rect.x() as i64;
            let dy: i64 = next.position.y as i64 - self.rect.y() as i64;
            if dx != 0 || dy != 0 {
                if dx > 0 && dy == 0 {
                    self.rotation = 90;
                } else if dx < 0 && dy == 0 {
                    self.rotation = 270;
                } else if dx == 0 && dy > 0 {
                    self.rotation = 180;
                } else if dx == 0 && dy < 0 {
                    self.rotation = 0;
                }
            }
            self.rect.set_x(next.position.x);
            self.rect.set_y(next.position.y);
        }
    }

    /// Whether the vehicle still shows in a window of side `window_size`.
    pub fn is_in_bounds(&self, window_size: u32) -> (r: bool)
        ensures
            r == spec_in_bounds(self.rect.left(), self.rect.top(),
                self.rect.spec_width() as i32 as int, window_size as i32 as int),
    {
        self.rect.is_in_bounds(window_size)
    }

    /// The display speed class, from 1 (slow) to 3 (fast); it does not affect movement.
    pub fn get_velocity_type(&self) -> (r: i32)
        ensures
            r == self.velocity_type,
    {
        self.velocity_type
    }
}

} // verus!
