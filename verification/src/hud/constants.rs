use vstd::prelude::*;

verus! {

/// Time multiplier applied when the car is off the road.
pub const OFF_ROAD_TIME_MULTIPLIER: u64 = 10;

} // verus!
