//! Positions and the spawn and turning positions of each route.

pub use crate::geometry::position::Position;
pub use crate::geometry::spawn::get_spawn_position;
pub use crate::intersection::turning::get_turning_position;
