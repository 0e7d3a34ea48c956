use vstd::prelude::*;

verus! {

/// Acceleration of the car, in world units per second squared.
pub const CAR_ACCELERATION: i32 = 1_000_000;

/// Top speed of the car, in world units per second.
pub const CAR_MAX_SPEED: i32 = 250_000;

/// How fast the car turns, in thousandths of a radian per second.
pub const CAR_TURN_SPEED: i32 = 3_000;

/// Rolling resistance, in world units per second squared.
pub const CAR_FRICTION: i32 = 400_000;

/// Width of the car, in world units.
pub const CAR_WIDTH: i32 = 10_000;

/// Length of the car, in world units.
pub const CAR_HEIGHT: i32 = 18_000;

/// How strongly a steering key turns the car: higher means more responsive.
pub const CAR_TURN_FACTOR: i32 = 2;

/// How long the boost can be used after the powerup is collected, in
/// microseconds.
pub const NOS_AVAILABILITY_DURATION: u64 = 2_000_000;

/// Top speed while boosting: one and a half times the top speed.
pub const NOS_BOOSTED_MAX_SPEED: i32 = 375_000;

} // verus!
