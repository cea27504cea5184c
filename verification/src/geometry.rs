//! Positions on the road and the rectangles that vehicles occupy.

pub mod position;
pub mod rect;
pub mod rect_extensions;
pub mod spawn;

pub use position::{Position, TimedPosition};
