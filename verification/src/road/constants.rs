use vstd::prelude::*;

verus! {

/// Width of the road, in world units.
pub const ROAD_WIDTH: i32 = 50_000;

/// Length of one segment: segments are square.
pub const ROAD_SEGMENT_LENGTH: i32 = ROAD_WIDTH;

/// Width of the start and finish lines.
pub const STARTING_LINE_WIDTH: i32 = ROAD_WIDTH;

/// Thickness of the start and finish lines.
pub const STARTING_LINE_HEIGHT: i32 = 2_000;

} // verus!
