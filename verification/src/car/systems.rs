//! How the car moves: steering, thrust, friction, the speed limit and the
//! walls of the world. Speeds are in world units per second, times in
//! microseconds.

use vstd::prelude::*;
use crate::car::components::{NosBoostAvailable, Velocity};
use crate::car::constants::{
    CAR_ACCELERATION, CAR_FRICTION, CAR_MAX_SPEED, CAR_TURN_FACTOR, CAR_TURN_SPEED,
    NOS_BOOSTED_MAX_SPEED,
};
use crate::car::helpers::{CAR_HALF_HEIGHT, CAR_HALF_WIDTH};
use crate::collision::{lemma_product_bound, Rotation, Transform, Vec2, LOCAL_ONE, ROTATION_ONE};
use crate::constants::{
    BOTTOM_BOUNDARY, LEFT_BOUNDARY, MAX_WORLD_COORDINATE, RIGHT_BOUNDARY, TOP_BOUNDARY,
};
use crate::math::{
    abs_int, ceil_sqrt, div_toward_zero, divide_toward_zero, floor_sqrt, integer_sqrt,
    integer_sqrt_ceil, lemma_div_toward_zero_bounds, lemma_div_toward_zero_within,
};

verus! {

/// The sideways speed of the car is divided by this in every step: grip.
pub const LATERAL_GRIP_DIVISOR: i32 = 10;

/// Microseconds in a second.
pub const MICROS_PER_SECOND: i32 = 1_000_000;

/// The longest step that the physics accept, in microseconds.
pub const MAX_FRAME_DELTA: u32 = 1_000_000;

/// The largest component of a velocity that the physics accept.
pub const MAX_VELOCITY: i32 = 400_000_000;

/// Whether neither part of a rotation is beyond one.
pub open spec fn rotation_is_bounded(rotation: Rotation) -> bool {
    &&& -ROTATION_ONE <= rotation.cos <= ROTATION_ONE
    &&& -ROTATION_ONE <= rotation.sin <= ROTATION_ONE
}

/// Whether neither component of a vector is beyond `bound`.
pub open spec fn vector_is_bounded(v: Vec2, bound: int) -> bool {
    &&& -bound <= v.x <= bound
    &&& -bound <= v.y <= bound
}

/// The components of a vector.
pub open spec fn components(v: Vec2) -> (int, int) {
    (v.x as int, v.y as int)
}

/// Puts the car on the starting point, at rest and not turned.
pub fn spawn_car(starting_point: Vec2) -> (car: (Transform, Velocity))
    ensures
        car.0.translation == starting_point,
        car.0.rotation.cos == ROTATION_ONE,
        car.0.rotation.sin == 0,
        car.1.0 == (Vec2 { x: 0, y: 0 }),
{
    (Transform::from_xy(starting_point.x, starting_point.y), Velocity(Vec2 { x: 0, y: 0 }))
}

/// The velocity after the sideways part of it has lost nine tenths: the part
/// along the car's heading is kept, the part across it is divided by
/// `LATERAL_GRIP_DIVISOR`.
pub open spec fn lateral_friction(rotation: Rotation, v: (int, int)) -> (int, int) {
    let forward_speed = rotation.cos * v.1 - rotation.sin * v.0;
    let lateral_speed = rotation.cos * v.0 + rotation.sin * v.1;
    (
        div_toward_zero(
            LATERAL_GRIP_DIVISOR * (-rotation.sin * forward_speed) + rotation.cos * lateral_speed,
            LATERAL_GRIP_DIVISOR * LOCAL_ONE,
        ),
        div_toward_zero(
            LATERAL_GRIP_DIVISOR * (rotation.cos * forward_speed) + rotation.sin * lateral_speed,
            LATERAL_GRIP_DIVISOR * LOCAL_ONE,
        ),
    )
}

/// Reduces sideways velocity to prevent the car from sliding like on ice.
pub fn apply_lateral_friction(transform: &Transform, velocity: &mut Velocity)
    requires
        rotation_is_bounded(transform.rotation),
        vector_is_bounded(old(velocity).0, MAX_VELOCITY as int),
    ensures
        components(final(velocity).0) == lateral_friction(transform.rotation, components(old(velocity).0)),
        vector_is_bounded(final(velocity).0, 3 * MAX_VELOCITY),
{
    let cos = transform.rotation.cos as i128;
    let sin = transform.rotation.sin as i128;
    let vx = velocity.0.x as i128;
    let vy = velocity.0.y as i128;
    proof {
        lemma_product_bound(cos as int, vy as int, 10_000, 400_000_000);
        lemma_product_bound(sin as int, vx as int, 10_000, 400_000_000);
        lemma_product_bound(cos as int, vx as int, 10_000, 400_000_000);
        lemma_product_bound(sin as int, vy as int, 10_000, 400_000_000);
        assert(10_000 * 400_000_000 == 4_000_000_000_000int);
    }
    let forward_speed: i128 = cos * vy - sin * vx;
    let lateral_speed: i128 = cos * vx + sin * vy;
    proof {
        lemma_product_bound(-sin as int, forward_speed as int, 10_000, 8_000_000_000_000);
        lemma_product_bound(cos as int, forward_speed as int, 10_000, 8_000_000_000_000);
        lemma_product_bound(cos as int, lateral_speed as int, 10_000, 8_000_000_000_000);
        lemma_product_bound(sin as int, lateral_speed as int, 10_000, 8_000_000_000_000);
        assert(10_000 * 8_000_000_000_000 == 80_000_000_000_000_000int);
    }
    let grip: i128 = LATERAL_GRIP_DIVISOR as i128;
    let numerator_x: i128 = grip * (-sin * forward_speed) + cos * lateral_speed;
    let numerator_y: i128 = grip * (cos * forward_speed) + sin * lateral_speed;
    let denominator: i128 = grip * LOCAL_ONE;
    proof {
        assert(denominator == 1_000_000_000);
        assert(1_200_000_000 * 1_000_000_000 == 1_200_000_000_000_000_000int);
        lemma_div_toward_zero_within(numerator_x as int, denominator as int, 1_200_000_000);
        lemma_div_toward_zero_within(numerator_y as int, denominator as int, 1_200_000_000);
    }
    let x = divide_toward_zero(numerator_x, denominator);
    let y = divide_toward_zero(numerator_y, denominator);
    velocity.0 = Vec2 { x: x as i32, y: y as i32 };
}

/// How much speed rolling resistance takes in `delta` microseconds.
pub open spec fn friction_loss(delta: int) -> int {
    CAR_FRICTION * delta / (MICROS_PER_SECOND as int)
}

/// The speed of a velocity, rounded down.
pub open spec fn speed_of(v: (int, int)) -> int {
    floor_sqrt(v.0 * v.0 + v.1 * v.1)
}

/// The velocity after rolling resistance has taken `loss` from its speed: a
/// car at rest stays at rest, a car slower than the loss stops, and any other
/// car keeps its direction and loses speed.
pub open spec fn rolling_friction(v: (int, int), loss: int) -> (int, int) {
    let speed = speed_of(v);
    if speed <= 0 {
        v
    } else if speed < loss {
        (0, 0)
    } else {
        (v.0 - div_toward_zero(v.0 * loss, speed), v.1 - div_toward_zero(v.1 * loss, speed))
    }
}

/// The square of a velocity's speed.
fn speed_squared(v: Vec2) -> (squared: u64)
    requires
        vector_is_bounded(v, 3 * MAX_VELOCITY),
    ensures
        squared == v.x * v.x + v.y * v.y,
        squared <= 2_880_000_000_000_000_000,
{
    let x = v.x as i64;
    let y = v.y as i64;
    proof {
        lemma_product_bound(x as int, x as int, 1_200_000_000, 1_200_000_000);
        lemma_product_bound(y as int, y as int, 1_200_000_000, 1_200_000_000);
        assert(1_200_000_000 * 1_200_000_000 == 1_440_000_000_000_000_000int);
        assert(x * x >= 0) by (nonlinear_arith);
        assert(y * y >= 0) by (nonlinear_arith);
    }
    (x * x + y * y) as u64
}

/// One component of a velocity, scaled by `factor` over `speed`.
fn scaled_component(component: i32, factor: i64, speed: i64) -> (scaled: i32)
    requires
        0 <= factor <= speed,
        speed > 0,
        factor <= 0x1_0000_0000,
    ensures
        scaled == div_toward_zero(component * factor, speed as int),
        component >= 0 ==> 0 <= scaled <= component,
        component <= 0 ==> component <= scaled <= 0,
{
    proof {
        lemma_product_bound(component as int, factor as int, 0x8000_0000, 0x1_0000_0000);
        assert(0x8000_0000 * 0x1_0000_0000 == 0x8000_0000_0000_0000int);
        let c = component as int;
        let f = factor as int;
        let s = speed as int;
        lemma_div_toward_zero_bounds(c * f, s);
        assert(-(abs_int(c) * s) <= c * f <= abs_int(c) * s) by (nonlinear_arith)
            requires
                0 <= f <= s,
        ;
        lemma_div_toward_zero_within(c * f, s, abs_int(c));
        assert(c >= 0 ==> c * f >= 0) by (nonlinear_arith)
            requires
                f >= 0,
        ;
        assert(c <= 0 ==> c * f <= 0) by (nonlinear_arith)
            requires
                f >= 0,
        ;
    }
    divide_toward_zero((component as i128) * (factor as i128), speed as i128) as i32
}

/// Applies rolling resistance that slows the car over time. Resistance
/// never turns the car round: each component of the velocity keeps its sign,
/// or becomes zero.
pub fn apply_rolling_friction(velocity: &mut Velocity, delta: u32)
    requires
        vector_is_bounded(old(velocity).0, 3 * MAX_VELOCITY),
    ensures
        components(final(velocity).0) == rolling_friction(
            components(old(velocity).0),
            friction_loss(delta as int),
        ),
        old(velocity).0.x >= 0 ==> 0 <= final(velocity).0.x <= old(velocity).0.x,
        old(velocity).0.x <= 0 ==> old(velocity).0.x <= final(velocity).0.x <= 0,
        old(velocity).0.y >= 0 ==> 0 <= final(velocity).0.y <= old(velocity).0.y,
        old(velocity).0.y <= 0 ==> old(velocity).0.y <= final(velocity).0.y <= 0,
{
    let speed = integer_sqrt(speed_squared(velocity.0)) as i64;
    if speed <= 0 {
        return;
    }
    let friction_magnitude: i64 = (CAR_FRICTION as i64) * (delta as i64) / (MICROS_PER_SECOND as i64);
    if speed < friction_magnitude {
        velocity.0 = Vec2 { x: 0, y: 0 };
    } else {
        let x = velocity.0.x - scaled_component(velocity.0.x, friction_magnitude, speed);
        let y = velocity.0.y - scaled_component(velocity.0.y, friction_magnitude, speed);
        velocity.0 = Vec2 { x, y };
    }
}

/// The top speed of the car: higher while the boost is active.
pub open spec fn max_speed(boost: Option<NosBoostAvailable>) -> int {
    match boost {
        Some(available) => if available.active {
            NOS_BOOSTED_MAX_SPEED as int
        } else {
            CAR_MAX_SPEED as int
        },
        None => CAR_MAX_SPEED as int,
    }
}

/// The velocity with its speed limited to `limit`: a velocity that is
/// faster keeps its direction and is scaled down to the limit.
pub open spec fn clamped_velocity(v: (int, int), limit: int) -> (int, int) {
    let squared = v.0 * v.0 + v.1 * v.1;
    if squared > limit * limit {
        (
            div_toward_zero(v.0 * limit, ceil_sqrt(squared)),
            div_toward_zero(v.1 * limit, ceil_sqrt(squared)),
        )
    } else {
        v
    }
}

/// Scaling a velocity down by `limit` over a speed that is not below its
/// own leaves it no faster than `limit`.
pub proof fn lemma_scaled_velocity_is_within_limit(v: (int, int), limit: int, speed: int)
    requires
        limit >= 0,
        speed > 0,
        speed * speed >= v.0 * v.0 + v.1 * v.1,
    ensures
        ({
            let a = div_toward_zero(v.0 * limit, speed);
            let b = div_toward_zero(v.1 * limit, speed);
            a * a + b * b <= limit * limit
        }),
{
    let a = div_toward_zero(v.0 * limit, speed);
    let b = div_toward_zero(v.1 * limit, speed);
    lemma_div_toward_zero_bounds(v.0 * limit, speed);
    lemma_div_toward_zero_bounds(v.1 * limit, speed);
    let aa = abs_int(a);
    let bb = abs_int(b);
    let x = abs_int(v.0);
    let y = abs_int(v.1);
    assert(abs_int(v.0 * limit) == x * limit) by (nonlinear_arith)
        requires
            limit >= 0,
            x == abs_int(v.0),
    ;
    assert(abs_int(v.1 * limit) == y * limit) by (nonlinear_arith)
        requires
            limit >= 0,
            y == abs_int(v.1),
    ;
    assert((aa * speed) * (aa * speed) <= (x * limit) * (x * limit)) by (nonlinear_arith)
        requires
            0 <= aa * speed <= x * limit,
    ;
    assert((bb * speed) * (bb * speed) <= (y * limit) * (y * limit)) by (nonlinear_arith)
        requires
            0 <= bb * speed <= y * limit,
    ;
    assert(aa * speed >= 0) by (nonlinear_arith)
        requires
            aa >= 0,
            speed > 0,
    ;
    assert(bb * speed >= 0) by (nonlinear_arith)
        requires
            bb >= 0,
            speed > 0,
    ;
    let ss = speed * speed;
    let ll = limit * limit;
    assert((aa * speed) * (aa * speed) == (a * a) * ss) by (nonlinear_arith)
        requires
            aa == abs_int(a),
            ss == speed * speed,
    ;
    assert((bb * speed) * (bb * speed) == (b * b) * ss) by (nonlinear_arith)
        requires
            bb == abs_int(b),
            ss == speed * speed,
    ;
    assert((x * limit) * (x * limit) == (v.0 * v.0) * ll) by (nonlinear_arith)
        requires
            x == abs_int(v.0),
            ll == limit * limit,
    ;
    assert((y * limit) * (y * limit) == (v.1 * v.1) * ll) by (nonlinear_arith)
        requires
            y == abs_int(v.1),
            ll == limit * limit,
    ;
    let n = v.0 * v.0 + v.1 * v.1;
    let m = a * a + b * b;
    assert(m * ss <= n * ll) by (nonlinear_arith)
        requires
            (a * a) * ss <= (v.0 * v.0) * ll,
            (b * b) * ss <= (v.1 * v.1) * ll,
            m == a * a + b * b,
            n == v.0 * v.0 + v.1 * v.1,
    ;
    assert(n * ll <= ss * ll) by (nonlinear_arith)
        requires
            n <= ss,
            ll >= 0,
    ;
    assert(ll >= 0) by (nonlinear_arith)
        requires
            ll == limit * limit,
    ;
    assert(ss > 0) by (nonlinear_arith)
        requires
            ss == speed * speed,
            speed > 0,
    ;
    assert(m <= ll) by (nonlinear_arith)
        requires
            m * ss <= ss * ll,
            ss > 0,
    ;
}

/// Clamps the car's speed to the maximum allowed. Uses the boosted maximum
/// if the boost is active. The car is no faster than the maximum afterwards.
pub fn clamp_speed(velocity: &mut Velocity, boost: Option<&NosBoostAvailable>)
    requires
        vector_is_bounded(old(velocity).0, 3 * MAX_VELOCITY),
    ensures
        components(final(velocity).0) == clamped_velocity(
            components(old(velocity).0),
            max_speed(
                match boost {
                    Some(available) => Some(*available),
                    None => None,
                },
            ),
        ),
        final(velocity).0.x * final(velocity).0.x + final(velocity).0.y * final(velocity).0.y
            <= max_speed(
            match boost {
                Some(available) => Some(*available),
                None => None,
            },
        ) * max_speed(
            match boost {
                Some(available) => Some(*available),
                None => None,
            },
        ),
        vector_is_bounded(final(velocity).0, NOS_BOOSTED_MAX_SPEED as int),
{
    let max_speed: i64 = match boost {
        Some(available) => if available.active {
            NOS_BOOSTED_MAX_SPEED as i64
        } else {
            CAR_MAX_SPEED as i64
        },
        None => CAR_MAX_SPEED as i64,
    };
    let squared = speed_squared(velocity.0);
    assert(max_speed * max_speed <= 375_000 * 375_000) by (nonlinear_arith)
        requires
            0 <= max_speed <= 375_000,
    ;
    if squared > (max_speed * max_speed) as u64 {
        let speed = integer_sqrt_ceil(squared) as i64;
        proof {
            let v = components(velocity.0);
            lemma_scaled_velocity_is_within_limit(v, max_speed as int, speed as int);
            assert(speed >= max_speed) by (nonlinear_arith)
                requires
                    speed * speed > max_speed * max_speed,
                    speed >= 0,
                    max_speed >= 0,
            ;
        }
        let x = scaled_component(velocity.0.x, max_speed, speed);
        let y = scaled_component(velocity.0.y, max_speed, speed);
        velocity.0 = Vec2 { x, y };
    }
    proof {
        let x = velocity.0.x as int;
        let y = velocity.0.y as int;
        let limit = max_speed as int;
        assert(-limit <= x <= limit && -limit <= y <= limit) by (nonlinear_arith)
            requires
                x * x + y * y <= limit * limit,
                limit >= 0,
        ;
    }
}

/// How far a speed carries in `delta` microseconds.
pub open spec fn distance_covered(speed: int, delta: int) -> int {
    div_toward_zero(speed * delta, MICROS_PER_SECOND as int)
}

/// Updates the car's position based on its current velocity.
pub fn update_position(transform: &mut Transform, velocity: &Velocity, delta: u32)
    requires
        vector_is_bounded(old(transform).translation, MAX_WORLD_COORDINATE as int),
        vector_is_bounded(velocity.0, MAX_WORLD_COORDINATE as int),
        delta <= MAX_FRAME_DELTA,
    ensures
        final(transform).rotation == old(transform).rotation,
        final(transform).translation.x == old(transform).translation.x + distance_covered(
            velocity.0.x as int,
            delta as int,
        ),
        final(transform).translation.y == old(transform).translation.y + distance_covered(
            velocity.0.y as int,
            delta as int,
        ),
{
    let step_x = scaled_component(velocity.0.x, delta as i64, MICROS_PER_SECOND as i64);
    let step_y = scaled_component(velocity.0.y, delta as i64, MICROS_PER_SECOND as i64);
    transform.translation = Vec2 {
        x: transform.translation.x + step_x,
        y: transform.translation.y + step_y,
    };
}

/// The half extents of the box along the axes that holds a car turned by
/// `rotation`.
pub open spec fn rotated_extents(rotation: Rotation) -> (int, int) {
    (
        (CAR_HALF_WIDTH * abs_int(rotation.cos as int) + CAR_HALF_HEIGHT * abs_int(rotation.sin as int))
            / (ROTATION_ONE as int),
        (CAR_HALF_WIDTH * abs_int(rotation.sin as int) + CAR_HALF_HEIGHT * abs_int(rotation.cos as int))
            / (ROTATION_ONE as int),
    )
}

/// Calculates the axis-aligned bounding box extents for the rotated car:
/// the half widths in each axis direction.
pub fn get_rotated_extents(transform: &Transform) -> (extents: (i32, i32))
    ensures
        (extents.0 as int, extents.1 as int) == rotated_extents(transform.rotation),
        0 <= extents.0 <= 50_000,
        0 <= extents.1 <= 50_000,
{
    let half_width = CAR_HALF_WIDTH as i64;
    let half_height = CAR_HALF_HEIGHT as i64;
    let cos_a: i64 = if transform.rotation.cos >= 0 {
        transform.rotation.cos as i64
    } else {
        -(transform.rotation.cos as i64)
    };
    let sin_a: i64 = if transform.rotation.sin >= 0 {
        transform.rotation.sin as i64
    } else {
        -(transform.rotation.sin as i64)
    };
    let extent_x = (half_width * cos_a + half_height * sin_a) / (ROTATION_ONE as i64);
    let extent_y = (half_width * sin_a + half_height * cos_a) / (ROTATION_ONE as i64);
    (extent_x as i32, extent_y as i32)
}

/// A position and a speed along one axis after the walls at `low` and `high`
/// have been applied to a car that reaches `extent` to either side: a car
/// beyond a wall is put against it, and loses the speed that leads into it.
pub open spec fn clamp_axis(position: int, speed: int, extent: int, low: int, high: int) -> (int, int) {
    let after_low = if position - extent < low {
        (low + extent, if speed > 0 { speed } else { 0 })
    } else {
        (position, speed)
    };
    if after_low.0 + extent > high {
        (high - extent, if after_low.1 < 0 { after_low.1 } else { 0 })
    } else {
        after_low
    }
}

/// Applies the walls to one axis.
fn clamp_one_axis(position: i32, speed: i32, extent: i32, low: i32, high: i32) -> (clamped: (i32, i32))
    requires
        0 <= extent <= 50_000,
        -MAX_WORLD_COORDINATE <= low,
        high <= MAX_WORLD_COORDINATE,
        low + 2 * extent <= high,
    ensures
        (clamped.0 as int, clamped.1 as int) == clamp_axis(
            position as int,
            speed as int,
            extent as int,
            low as int,
            high as int,
        ),
        low + extent <= clamped.0 <= high - extent,
{
    let mut position = position;
    let mut speed = speed;
    if (position as i64) - (extent as i64) < low as i64 {
        position = low + extent;
        if speed < 0 {
            speed = 0;
        }
    }
    if (position as i64) + (extent as i64) > high as i64 {
        position = high - extent;
        if speed > 0 {
            speed = 0;
        }
    }
    (position, speed)
}

/// Clamps the car's position to stay within the world's boundaries,
/// accounting for how the car is turned. Zeroes the velocity component that
/// leads into a wall. The car lies within the boundaries afterwards.
pub fn clamp_position(transform: &mut Transform, velocity: &mut Velocity)
    ensures
        final(transform).rotation == old(transform).rotation,
        (final(transform).translation.x as int, final(velocity).0.x as int) == clamp_axis(
            old(transform).translation.x as int,
            old(velocity).0.x as int,
            rotated_extents(old(transform).rotation).0,
            LEFT_BOUNDARY as int,
            RIGHT_BOUNDARY as int,
        ),
        (final(transform).translation.y as int, final(velocity).0.y as int) == clamp_axis(
            old(transform).translation.y as int,
            old(velocity).0.y as int,
            rotated_extents(old(transform).rotation).1,
            BOTTOM_BOUNDARY as int,
            TOP_BOUNDARY as int,
        ),
        LEFT_BOUNDARY + rotated_extents(old(transform).rotation).0 <= final(transform).translation.x
            <= RIGHT_BOUNDARY - rotated_extents(old(transform).rotation).0,
        BOTTOM_BOUNDARY + rotated_extents(old(transform).rotation).1 <= final(transform).translation.y
            <= TOP_BOUNDARY - rotated_extents(old(transform).rotation).1,
{
    let (extent_x, extent_y) = get_rotated_extents(transform);
    let (x, speed_x) = clamp_one_axis(
        transform.translation.x,
        velocity.0.x,
        extent_x,
        LEFT_BOUNDARY,
        RIGHT_BOUNDARY,
    );
    let (y, speed_y) = clamp_one_axis(
        transform.translation.y,
        velocity.0.y,
        extent_y,
        BOTTOM_BOUNDARY,
        TOP_BOUNDARY,
    );
    transform.translation = Vec2 { x, y };
    velocity.0 = Vec2 { x: speed_x, y: speed_y };
}

/// The car's pose and velocity after one step of `delta` microseconds:
/// sideways friction, rolling resistance, the speed limit, the move, and the
/// walls, in this order.
pub open spec fn car_after_move(
    transform: Transform,
    velocity: Velocity,
    boost: Option<NosBoostAvailable>,
    delta: u32,
) -> (Transform, Velocity) {
    let gripped = lateral_friction(transform.rotation, components(velocity.0));
    let slowed = rolling_friction(gripped, friction_loss(delta as int));
    let limited = clamped_velocity(slowed, max_speed(boost));
    let moved = (
        transform.translation.x + distance_covered(limited.0, delta as int),
        transform.translation.y + distance_covered(limited.1, delta as int),
    );
    let extents = rotated_extents(transform.rotation);
    let along_x = clamp_axis(moved.0, limited.0, extents.0, LEFT_BOUNDARY as int, RIGHT_BOUNDARY as int);
    let along_y = clamp_axis(moved.1, limited.1, extents.1, BOTTOM_BOUNDARY as int, TOP_BOUNDARY as int);
    (
        Transform {
            translation: Vec2 { x: along_x.0 as i32, y: along_y.0 as i32 },
            rotation: transform.rotation,
        },
        Velocity(Vec2 { x: along_x.1 as i32, y: along_y.1 as i32 }),
    )
}

/// Moves the car by one step. Afterwards the car lies within the world's
/// boundaries and is no faster than its top speed.
pub fn move_car(
    transform: &mut Transform,
    velocity: &mut Velocity,
    boost: Option<&NosBoostAvailable>,
    delta: u32,
)
    requires
        rotation_is_bounded(old(transform).rotation),
        vector_is_bounded(old(transform).translation, MAX_WORLD_COORDINATE as int),
        vector_is_bounded(old(velocity).0, MAX_VELOCITY as int),
        delta <= MAX_FRAME_DELTA,
    ensures
        (*final(transform), *final(velocity)) == car_after_move(
            *old(transform),
            *old(velocity),
            match boost {
                Some(available) => Some(*available),
                None => None,
            },
            delta,
        ),
        vector_is_bounded(final(velocity).0, NOS_BOOSTED_MAX_SPEED as int),
        LEFT_BOUNDARY <= final(transform).translation.x <= RIGHT_BOUNDARY,
        BOTTOM_BOUNDARY <= final(transform).translation.y <= TOP_BOUNDARY,
{
    apply_lateral_friction(transform, velocity);
    apply_rolling_friction(velocity, delta);
    clamp_speed(velocity, boost);
    update_position(transform, velocity, delta);
    clamp_position(transform, velocity);
}

/// The steering input: positive for left, negative for right, nothing for
/// both or neither.
pub open spec fn steering_input(left: bool, right: bool) -> int {
    (if left { CAR_TURN_FACTOR as int } else { 0 }) - (if right { CAR_TURN_FACTOR as int } else { 0 })
}

/// Returns the steering input as a value: positive for left, negative for
/// right.
pub fn get_steering_input(left: bool, right: bool) -> (input: i32)
    ensures
        input == steering_input(left, right),
{
    let mut input: i32 = 0;
    if left {
        input = input + CAR_TURN_FACTOR;
    }
    if right {
        input = input - CAR_TURN_FACTOR;
    }
    input
}

/// Handles left/right steering input: the angle by which the car turns in
/// `delta` microseconds, counter-clockwise, in millionths of a radian, at the
/// turn speed of `CAR_TURN_SPEED` thousandths of a radian per second.
pub fn apply_steering(left: bool, right: bool, delta: u32) -> (rotation_amount: i64)
    ensures
        rotation_amount == div_toward_zero(steering_input(left, right) * CAR_TURN_SPEED * delta, 1000),
{
    let rotation_input = get_steering_input(left, right) as i64;
    if rotation_input != 0 {
        proof {
            lemma_product_bound(rotation_input * 3000, delta as int, 6000, 0x1_0000_0000);
            assert(rotation_input * CAR_TURN_SPEED * delta == (rotation_input * 3000) * delta)
                by (nonlinear_arith)
                requires
                    CAR_TURN_SPEED == 3000,
            ;
        }
        divide_toward_zero(
            (rotation_input * (CAR_TURN_SPEED as i64) * (delta as i64)) as i128,
            1000,
        ) as i64
    } else {
        proof {
            assert(0 * CAR_TURN_SPEED * delta == 0) by (nonlinear_arith);
        }
        0
    }
}

/// The acceleration input: positive for forward, negative for reverse,
/// nothing for both or neither.
pub open spec fn acceleration_input(up: bool, down: bool) -> int {
    (if up { CAR_ACCELERATION as int } else { 0 }) - (if down { CAR_ACCELERATION as int } else { 0 })
}

/// Returns the acceleration input: positive for forward, negative for
/// reverse.
pub fn get_acceleration_input(up: bool, down: bool) -> (input: i32)
    ensures
        input == acceleration_input(up, down),
{
    let mut input: i32 = 0;
    if up {
        input = input + CAR_ACCELERATION;
    }
    if down {
        input = input - CAR_ACCELERATION;
    }
    input
}

/// The velocity after `delta` microseconds of thrust along the car's
/// heading.
pub open spec fn accelerated(rotation: Rotation, v: (int, int), input: int, delta: int) -> (int, int) {
    (
        v.0 + div_toward_zero(-rotation.sin * input * delta, ROTATION_ONE * MICROS_PER_SECOND),
        v.1 + div_toward_zero(rotation.cos * input * delta, ROTATION_ONE * MICROS_PER_SECOND),
    )
}

/// The change of speed along one axis.
fn thrust_component(heading: i64, input: i64, delta: u32) -> (change: i32)
    requires
        -ROTATION_ONE <= heading <= ROTATION_ONE,
        -CAR_ACCELERATION <= input <= CAR_ACCELERATION,
        delta <= MAX_FRAME_DELTA,
    ensures
        change == div_toward_zero(heading * input * delta, ROTATION_ONE * MICROS_PER_SECOND),
        -1_000_000 <= change <= 1_000_000,
{
    proof {
        lemma_product_bound(heading as int, input as int, 10_000, 1_000_000);
        lemma_product_bound(heading * input, delta as int, 10_000_000_000, 1_000_000);
        assert(10_000 * 1_000_000 == 10_000_000_000int);
        assert(10_000_000_000 * 1_000_000 == 10_000_000_000_000_000int);
        assert(ROTATION_ONE * MICROS_PER_SECOND == 10_000_000_000int);
        assert(1_000_000 * 10_000_000_000 == 10_000_000_000_000_000int);
        lemma_div_toward_zero_within(heading * input * delta, 10_000_000_000, 1_000_000);
    }
    divide_toward_zero(
        (heading * input * (delta as i64)) as i128,
        (ROTATION_ONE as i128) * (MICROS_PER_SECOND as i128),
    ) as i32
}

/// Handles up/down acceleration input and applies force in the car's facing
/// direction.
pub fn apply_acceleration(up: bool, down: bool, transform: &Transform, velocity: &mut Velocity, delta: u32)
    requires
        rotation_is_bounded(transform.rotation),
        vector_is_bounded(old(velocity).0, MAX_VELOCITY - 1_000_000),
        delta <= MAX_FRAME_DELTA,
    ensures
        components(final(velocity).0) == accelerated(
            transform.rotation,
            components(old(velocity).0),
            acceleration_input(up, down),
            delta as int,
        ),
        vector_is_bounded(final(velocity).0, MAX_VELOCITY as int),
{
    let acceleration_input = get_acceleration_input(up, down) as i64;
    let change_x = thrust_component(-(transform.rotation.sin as i64), acceleration_input, delta);
    let change_y = thrust_component(transform.rotation.cos as i64, acceleration_input, delta);
    velocity.0 = Vec2 { x: velocity.0.x + change_x, y: velocity.0.y + change_y };
}

/// Handles the steering and the throttle of one step. Returns the angle by
/// which the car is to be turned, in millionths of a radian; the thrust is
/// along the heading that the car has before it is turned by that angle.
pub fn handle_input(
    left: bool,
    right: bool,
    up: bool,
    down: bool,
    transform: &Transform,
    velocity: &mut Velocity,
    delta: u32,
) -> (rotation_amount: i64)
    requires
        rotation_is_bounded(transform.rotation),
        vector_is_bounded(old(velocity).0, MAX_VELOCITY - 1_000_000),
        delta <= MAX_FRAME_DELTA,
    ensures
        rotation_amount == div_toward_zero(steering_input(left, right) * CAR_TURN_SPEED * delta, 1000),
        components(final(velocity).0) == accelerated(
            transform.rotation,
            components(old(velocity).0),
            acceleration_input(up, down),
            delta as int,
        ),
        vector_is_bounded(final(velocity).0, MAX_VELOCITY as int),
{
    let rotation_amount = apply_steering(left, right, delta);
    apply_acceleration(up, down, transform, velocity, delta);
    rotation_amount
}

/// The step that the physics take for a frame of `delta_micros`
/// microseconds: the whole frame, or the longest step where the frame is
/// longer.
pub open spec fn step_of_frame(delta_micros: u64) -> u32 {
    if delta_micros > MAX_FRAME_DELTA {
        MAX_FRAME_DELTA
    } else {
        delta_micros as u32
    }
}

/// The step that the physics take for a frame.
#[verifier::when_used_as_spec(step_of_frame)]
pub fn step_delta(delta_micros: u64) -> (step: u32)
    ensures
        step == step_of_frame(delta_micros),
        step <= MAX_FRAME_DELTA,
{
    if delta_micros > MAX_FRAME_DELTA as u64 {
        MAX_FRAME_DELTA
    } else {
        delta_micros as u32
    }
}

/// Whether neither part of a rotation is beyond one.
pub fn is_rotation_bounded(rotation: Rotation) -> (bounded: bool)
    ensures
        bounded == rotation_is_bounded(rotation),
{
    -ROTATION_ONE <= rotation.cos && rotation.cos <= ROTATION_ONE && -ROTATION_ONE <= rotation.sin
        && rotation.sin <= ROTATION_ONE
}

/// Whether neither component of a vector is beyond `bound`.
pub fn is_vector_bounded(v: Vec2, bound: i32) -> (bounded: bool)
    requires
        bound >= 0,
    ensures
        bounded == vector_is_bounded(v, bound as int),
{
    -bound <= v.x && v.x <= bound && -bound <= v.y && v.y <= bound
}

/// Whether the keys can act on a car: its rotation is no longer than one, and
/// its velocity leaves room for a step of thrust.
pub open spec fn can_take_input(transform: Transform, velocity: Velocity) -> bool {
    &&& rotation_is_bounded(transform.rotation)
    &&& vector_is_bounded(velocity.0, MAX_VELOCITY - 1_000_000)
}

/// Whether a car can be moved: its rotation is no longer than one, and its
/// position and velocity are within what the arithmetic of a step holds.
pub open spec fn can_move(transform: Transform, velocity: Velocity) -> bool {
    &&& rotation_is_bounded(transform.rotation)
    &&& vector_is_bounded(transform.translation, MAX_WORLD_COORDINATE as int)
    &&& vector_is_bounded(velocity.0, MAX_VELOCITY as int)
}

/// Handles the steering and the throttle of one frame of any length, for a
/// car in any state. The step is that of the frame, cut to the longest step.
/// A car that the keys cannot act on is left as it is, and `None` says so;
/// else the angle comes back by which the car is to be turned.
pub fn try_handle_input(
    left: bool,
    right: bool,
    up: bool,
    down: bool,
    transform: &Transform,
    velocity: &mut Velocity,
    delta_micros: u64,
) -> (rotation_amount: Option<i64>)
    ensures
        rotation_amount is Some <==> can_take_input(*transform, *old(velocity)),
        rotation_amount matches Some(amount) ==> {
            &&& amount == div_toward_zero(
                steering_input(left, right) * CAR_TURN_SPEED * step_of_frame(delta_micros),
                1000,
            )
            &&& components(final(velocity).0) == accelerated(
                transform.rotation,
                components(old(velocity).0),
                acceleration_input(up, down),
                step_of_frame(delta_micros) as int,
            )
        },
        rotation_amount is None ==> *final(velocity) == *old(velocity),
{
    if !is_rotation_bounded(transform.rotation) || !is_vector_bounded(velocity.0, MAX_VELOCITY - 1_000_000) {
        return None;
    }
    Some(handle_input(left, right, up, down, transform, velocity, step_delta(delta_micros)))
}

/// Moves the car by one frame of any length, for a car in any state. The
/// step is that of the frame, cut to the longest step. A car that cannot be
/// moved is left as it is, and the result says so.
pub fn try_move_car(
    transform: &mut Transform,
    velocity: &mut Velocity,
    boost: Option<&NosBoostAvailable>,
    delta_micros: u64,
) -> (moved: bool)
    ensures
        moved == can_move(*old(transform), *old(velocity)),
        moved ==> (*final(transform), *final(velocity)) == car_after_move(
            *old(transform),
            *old(velocity),
            match boost {
                Some(available) => Some(*available),
                None => None,
            },
            step_of_frame(delta_micros),
        ),
        moved ==> LEFT_BOUNDARY <= final(transform).translation.x <= RIGHT_BOUNDARY,
        moved ==> BOTTOM_BOUNDARY <= final(transform).translation.y <= TOP_BOUNDARY,
        !moved ==> *final(transform) == *old(transform) && *final(velocity) == *old(velocity),
{
    if !is_rotation_bounded(transform.rotation) || !is_vector_bounded(
        transform.translation,
        MAX_WORLD_COORDINATE,
    ) || !is_vector_bounded(velocity.0, MAX_VELOCITY) {
        return false;
    }
    move_car(transform, velocity, boost, step_delta(delta_micros));
    true
}

/// The boost after `delta` microseconds more, with the boost key held or
/// not: the timer has advanced; a boost whose timer is finished is gone; one
/// that is left is active exactly while the key is held.
pub open spec fn boost_after(boost: Option<NosBoostAvailable>, key_held: bool, delta: u64) -> Option<
    NosBoostAvailable,
> {
    match boost {
        None => None,
        Some(available) => {
            let elapsed = available.timer.elapsed_after(delta);
            if elapsed >= available.timer.duration {
                None
            } else {
                Some(
                    NosBoostAvailable {
                        timer: crate::car::components::Timer { duration: available.timer.duration, elapsed },
                        active: key_held,
                    },
                )
            }
        },
    }
}

/// Updates the boost: ticks the availability timer, makes the boost active
/// while the boost key is held, and removes the boost when its time is up.
pub fn update_nos_boost(boost: &mut Option<NosBoostAvailable>, key_held: bool, delta: u64)
    ensures
        *final(boost) == boost_after(*old(boost), key_held, delta),
{
    match *boost {
        None => {},
        Some(available) => {
            let mut available = available;
            available.timer.tick(delta);
            available.active = key_held && !available.timer.is_finished();
            if available.timer.is_finished() {
                *boost = None;
            } else {
                *boost = Some(available);
            }
        },
    }
}

} // verus!
