//! Traffic simulation of a six-lane road intersection: the geometry of lanes and
//! turns, the planning of a vehicle's timed path around the vehicles already on
//! the road, and the bookkeeping of the simulation.

pub mod constants;
pub mod direction;
pub mod geometry;
pub mod intersection;
mod random;
pub mod vehicles;
pub mod simulation;
pub mod compass;
pub mod vehicle;
pub mod vehicle_positions;
pub mod block_system;
pub mod block_renderer;
pub mod input;
pub mod rendering;
pub mod trees;
pub mod smart_algorithm;
