use vstd::prelude::*;

verus! {

/// Width and height of the square window, in pixels.
pub const WINDOW_SIZE: u32 = 800;

/// Distance between two lane markers: one sixteenth of the window.
pub const LINE_SPACING: i32 = 50;

/// Width and height of a vehicle, one lane wide.
pub const VEHICLE_SIZE: u32 = 50;

/// Frame length of the main loop, in milliseconds (sixty frames a second).
pub const FRAME_DURATION_MS: u64 = 16;

/// Interval between two vehicles spawned by random generation, in milliseconds.
pub const VEHICLE_SPAWN_INTERVAL_MS: u64 = 700;

/// Minimal interval between two spawns from the same side, in milliseconds.
pub const SPAWN_COOLDOWN_MS: u64 = 700;

/// Left and top edge of the intersection square, in pixels (five lane widths).
pub const INTERSECTION_MIN: i32 = 250;

/// Right and bottom edge of the intersection square, in pixels (eleven lane widths).
pub const INTERSECTION_MAX: i32 = 550;

} // verus!
