//! Vehicles and the planning of their timed paths through the intersection.

pub mod collision_detector;
pub mod collision_resolver;
pub mod path_calculator;
pub mod vehicle_data;

pub use vehicle_data::Vehicle;
