//! The intersection square: its bounds, the turning lines of each route, and the lane
//! geometry of the compass model.

pub mod bounds;
pub mod flow;
pub mod lanes;
pub mod turning;

pub use bounds::IntersectionBounds;
