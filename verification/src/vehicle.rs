//! The vehicle and what it is built from, under the names the simulation uses.

pub use crate::geometry::position::TimedPosition;
pub use crate::geometry::rect_extensions::RectExtensions;
pub use crate::vehicles::vehicle_data::{Color, Vehicle};
