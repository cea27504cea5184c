//! The running simulation: the vehicles on the road and the statistics kept about them.

pub mod session;
pub mod statistics;
pub mod vehicle_manager;

pub use statistics::Statistics;
pub use vehicle_manager::VehicleManager;
