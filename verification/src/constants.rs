//! Sizes of the playing field.

use vstd::prelude::*;

verus! {

/// World coordinates count thousandths of a pixel.
pub const UNITS_PER_PIXEL: i32 = 1000;

/// The farthest from the origin that a position may lie where positions are
/// added up, in world units.
pub const MAX_WORLD_COORDINATE: i32 = 1_000_000_000;

/// Width of the window, in pixels.
pub const WINDOW_WIDTH: u32 = 1300;

/// Height of the window, in pixels.
pub const WINDOW_HEIGHT: u32 = 800;

/// The left edge of the world, in world units.
pub const LEFT_BOUNDARY: i32 = -650_000;

/// The right edge of the world, in world units.
pub const RIGHT_BOUNDARY: i32 = 650_000;

/// The top edge of the world, in world units.
pub const TOP_BOUNDARY: i32 = 400_000;

/// The bottom edge of the world, in world units.
pub const BOTTOM_BOUNDARY: i32 = -400_000;

} // verus!
