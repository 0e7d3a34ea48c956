use bevy_driver::car::components::{NosBoostAvailable, Timer, Velocity};
use bevy_driver::car::constants::{
    CAR_ACCELERATION, CAR_FRICTION, CAR_HEIGHT, CAR_MAX_SPEED, CAR_WIDTH, NOS_AVAILABILITY_DURATION,
    NOS_BOOSTED_MAX_SPEED,
};
use bevy_driver::car::systems::{
    apply_acceleration, apply_lateral_friction, apply_rolling_friction, apply_steering, clamp_position,
    clamp_speed, get_acceleration_input, get_rotated_extents, get_steering_input, handle_input,
    move_car, spawn_car, step_delta, try_handle_input, try_move_car, update_nos_boost,
    update_position,
};
use bevy_driver::collision::{Rotation, Transform, Vec2};
use bevy_driver::math::{divide_toward_zero, integer_sqrt, integer_sqrt_ceil};

fn velocity(x: i32, y: i32) -> Velocity {
    Velocity(Vec2 { x, y })
}

fn turned(cos: i16, sin: i16) -> Transform {
    Transform { translation: Vec2 { x: 0, y: 0 }, rotation: Rotation { cos, sin } }
}

#[test]
fn car_is_10_wide_and_18_long() {
    assert_eq!(CAR_WIDTH, 10_000);
    assert_eq!(CAR_HEIGHT, 18_000);
    assert_eq!(CAR_MAX_SPEED, 250_000);
    assert_eq!(NOS_BOOSTED_MAX_SPEED, CAR_MAX_SPEED * 3 / 2);
    assert_eq!(CAR_ACCELERATION, 1_000_000);
    assert_eq!(CAR_FRICTION, 400_000);
}

#[test]
fn car_spawns_at_rest_on_the_starting_point() {
    let (transform, vel) = spawn_car(Vec2 { x: -25_000, y: 75_000 });
    assert_eq!(transform, Transform::from_xy(-25_000, 75_000));
    assert_eq!(transform.rotation, Rotation { cos: 10_000, sin: 0 });
    assert_eq!(vel, velocity(0, 0));
}

#[test]
fn quotients_are_rounded_toward_zero() {
    assert_eq!(divide_toward_zero(7, 2), 3);
    assert_eq!(divide_toward_zero(-7, 2), -3);
    assert_eq!(divide_toward_zero(6, 2), 3);
    assert_eq!(divide_toward_zero(-1, 2), 0);
    assert_eq!(divide_toward_zero(0, 5), 0);
}

#[test]
fn integer_square_roots() {
    assert_eq!(integer_sqrt(0), 0);
    assert_eq!(integer_sqrt(1), 1);
    assert_eq!(integer_sqrt(24), 4);
    assert_eq!(integer_sqrt(25), 5);
    assert_eq!(integer_sqrt(26), 5);
    assert_eq!(integer_sqrt(u64::MAX), 0xffff_ffff);
    assert_eq!(integer_sqrt(0xffff_ffff * 0xffff_ffff), 0xffff_ffff);
    assert_eq!(integer_sqrt_ceil(0), 0);
    assert_eq!(integer_sqrt_ceil(24), 5);
    assert_eq!(integer_sqrt_ceil(25), 5);
    assert_eq!(integer_sqrt_ceil(26), 6);
    assert_eq!(integer_sqrt_ceil(u64::MAX), 0x1_0000_0000);
}

#[test]
fn sideways_speed_loses_nine_tenths() {
    // The car points up: its speed to the side is that along x.
    let mut v = velocity(1_000, 2_000);
    apply_lateral_friction(&turned(10_000, 0), &mut v);
    assert_eq!(v, velocity(100, 2_000));
    // The car points left: its speed to the side is that along y.
    let mut v = velocity(1_000, 2_000);
    apply_lateral_friction(&turned(0, 10_000), &mut v);
    assert_eq!(v, velocity(1_000, 200));
    // The car points down.
    let mut v = velocity(-1_000, -2_000);
    apply_lateral_friction(&turned(-10_000, 0), &mut v);
    assert_eq!(v, velocity(-100, -2_000));
}

#[test]
fn sideways_friction_of_a_car_on_the_diagonal() {
    // The car points up and to the left, on a 3-4-5 triangle: forward is
    // (-0.8, 0.6), right is (0.6, 0.8).
    let car = turned(6_000, 8_000);
    // Speed along the heading is kept.
    let mut v = velocity(-8_000, 6_000);
    apply_lateral_friction(&car, &mut v);
    assert_eq!(v, velocity(-8_000, 6_000));
    // Speed across the heading is cut to a tenth.
    let mut v = velocity(6_000, 8_000);
    apply_lateral_friction(&car, &mut v);
    assert_eq!(v, velocity(600, 800));
    // Both: 10000 along and 5000 across.
    let mut v = velocity(-8_000 + 3_000, 6_000 + 4_000);
    apply_lateral_friction(&car, &mut v);
    assert_eq!(v, velocity(-8_000 + 300, 6_000 + 400));
}

#[test]
fn rolling_friction_takes_speed_and_keeps_the_direction() {
    // Speed 5000; 5 milliseconds of friction take 2000 of it.
    let mut v = velocity(3_000, 4_000);
    apply_rolling_friction(&mut v, 5_000);
    assert_eq!(v, velocity(1_800, 2_400));
    let mut v = velocity(-3_000, 4_000);
    apply_rolling_friction(&mut v, 5_000);
    assert_eq!(v, velocity(-1_800, 2_400));
    let mut v = velocity(0, -250_000);
    apply_rolling_friction(&mut v, 16_000);
    assert_eq!(v, velocity(0, -243_600));
}

#[test]
fn rolling_friction_stops_a_slow_car_and_never_turns_it_round() {
    let mut v = velocity(30, 40);
    apply_rolling_friction(&mut v, 5_000);
    assert_eq!(v, velocity(0, 0));
    // As fast as the loss: the car stops, and does not go backwards.
    let mut v = velocity(0, 2_000);
    apply_rolling_friction(&mut v, 5_000);
    assert_eq!(v, velocity(0, 0));
    let mut v = velocity(0, 1_999);
    apply_rolling_friction(&mut v, 5_000);
    assert_eq!(v, velocity(0, 0));
    let mut v = velocity(0, 2_001);
    apply_rolling_friction(&mut v, 5_000);
    assert_eq!(v, velocity(0, 1));
}

#[test]
fn rolling_friction_leaves_a_car_at_rest_and_takes_nothing_in_no_time() {
    let mut v = velocity(0, 0);
    apply_rolling_friction(&mut v, 1_000_000);
    assert_eq!(v, velocity(0, 0));
    let mut v = velocity(3_000, 4_000);
    apply_rolling_friction(&mut v, 0);
    assert_eq!(v, velocity(3_000, 4_000));
}

#[test]
fn speed_is_limited_to_the_top_speed() {
    let mut v = velocity(300_000, 400_000);
    clamp_speed(&mut v, None);
    assert_eq!(v, velocity(150_000, 200_000));
    let mut v = velocity(-250_001, 0);
    clamp_speed(&mut v, None);
    assert_eq!(v, velocity(-250_000, 0));
    // At the limit and below it nothing changes.
    let mut v = velocity(150_000, 200_000);
    clamp_speed(&mut v, None);
    assert_eq!(v, velocity(150_000, 200_000));
    let mut v = velocity(0, 0);
    clamp_speed(&mut v, None);
    assert_eq!(v, velocity(0, 0));
}

#[test]
fn limited_speed_is_never_above_the_limit() {
    for (x, y) in [(250_000, 1), (176_777, 176_778), (1_200_000_000, -1_200_000_000), (-999_999, 7), (1, 375_000)] {
        for boost in [None, Some(NosBoostAvailable { timer: Timer::new(5), active: true })] {
            let mut v = velocity(x, y);
            clamp_speed(&mut v, boost.as_ref());
            let limit: i64 = if boost.is_some() { 375_000 } else { 250_000 };
            let squared = (v.0.x as i64).pow(2) + (v.0.y as i64).pow(2);
            assert!(squared <= limit * limit, "({}, {}) became {:?}", x, y, v);
            // The direction is kept.
            assert!(v.0.x.signum() == x.signum() || v.0.x == 0);
            assert!(v.0.y.signum() == y.signum() || v.0.y == 0);
        }
    }
}

#[test]
fn top_speed_is_higher_while_the_boost_is_active() {
    let active = NosBoostAvailable { timer: Timer::new(2_000_000), active: true };
    let mut v = velocity(300_000, 400_000);
    clamp_speed(&mut v, Some(&active));
    assert_eq!(v, velocity(225_000, 300_000));
    // A boost that is available, but not active, does not raise the limit.
    let available = NosBoostAvailable::new(2_000_000);
    let mut v = velocity(300_000, 400_000);
    clamp_speed(&mut v, Some(&available));
    assert_eq!(v, velocity(150_000, 200_000));
}

#[test]
fn position_moves_by_speed_times_time() {
    let mut transform = Transform::from_xy(1_000, 2_000);
    update_position(&mut transform, &velocity(250_000, -125_000), 16_000);
    assert_eq!(transform.translation, Vec2 { x: 5_000, y: 0 });
    // Less than a unit is dropped, in either direction.
    update_position(&mut transform, &velocity(999, -999), 1_000);
    assert_eq!(transform.translation, Vec2 { x: 5_000, y: 0 });
    update_position(&mut transform, &velocity(1_000, -1_000), 1_000);
    assert_eq!(transform.translation, Vec2 { x: 5_001, y: -1 });
    update_position(&mut transform, &velocity(1_000, -1_000), 0);
    assert_eq!(transform.translation, Vec2 { x: 5_001, y: -1 });
}

#[test]
fn extents_of_a_turned_car() {
    assert_eq!(get_rotated_extents(&turned(10_000, 0)), (5_000, 9_000));
    assert_eq!(get_rotated_extents(&turned(0, -10_000)), (9_000, 5_000));
    assert_eq!(get_rotated_extents(&turned(-10_000, 0)), (5_000, 9_000));
    // At 45 degrees: 14 * 0.7071.
    assert_eq!(get_rotated_extents(&turned(7_071, -7_071)), (9_899, 9_899));
    assert_eq!(get_rotated_extents(&turned(6_000, 8_000)), (10_200, 9_400));
}

#[test]
fn walls_hold_the_car_and_take_the_speed_that_leads_into_them() {
    // Beyond the right wall, moving right and up.
    let mut transform = Transform::from_xy(649_000, 0);
    let mut v = velocity(100, 50);
    clamp_position(&mut transform, &mut v);
    assert_eq!(transform.translation, Vec2 { x: 645_000, y: 0 });
    assert_eq!(v, velocity(0, 50));
    // Beyond the left wall, moving away from it.
    let mut transform = Transform::from_xy(-700_000, 0);
    let mut v = velocity(100, 50);
    clamp_position(&mut transform, &mut v);
    assert_eq!(transform.translation, Vec2 { x: -645_000, y: 0 });
    assert_eq!(v, velocity(100, 50));
    // Beyond the top, moving up; the car is 9 long to either side.
    let mut transform = Transform::from_xy(0, 400_000);
    let mut v = velocity(-7, 50);
    clamp_position(&mut transform, &mut v);
    assert_eq!(transform.translation, Vec2 { x: 0, y: 391_000 });
    assert_eq!(v, velocity(-7, 0));
    // Beyond the bottom, moving down, and turned a quarter.
    let mut transform = Transform::from_xy(0, -400_000).with_rotation(Rotation { cos: 0, sin: 10_000 });
    let mut v = velocity(-7, -50);
    clamp_position(&mut transform, &mut v);
    assert_eq!(transform.translation, Vec2 { x: 0, y: -395_000 });
    assert_eq!(v, velocity(-7, 0));
}

#[test]
fn walls_leave_a_car_inside_alone() {
    let mut transform = Transform::from_xy(645_000, -391_000);
    let mut v = velocity(100, -50);
    clamp_position(&mut transform, &mut v);
    assert_eq!(transform.translation, Vec2 { x: 645_000, y: -391_000 });
    assert_eq!(v, velocity(100, -50));
    let mut transform = Transform::from_xy(i32::MAX, i32::MIN);
    let mut v = velocity(i32::MAX, i32::MIN);
    clamp_position(&mut transform, &mut v);
    assert_eq!(transform.translation, Vec2 { x: 645_000, y: -391_000 });
    assert_eq!(v, velocity(0, 0));
}

#[test]
fn steering_turns_left_for_left_and_right_for_right() {
    assert_eq!(get_steering_input(true, false), 2);
    assert_eq!(get_steering_input(false, true), -2);
    assert_eq!(get_steering_input(true, true), 0);
    assert_eq!(get_steering_input(false, false), 0);
    // Six radians in a second: 96 thousandths in 16 milliseconds.
    assert_eq!(apply_steering(true, false, 16_000), 96_000);
    assert_eq!(apply_steering(false, true, 16_000), -96_000);
    assert_eq!(apply_steering(true, true, 16_000), 0);
    assert_eq!(apply_steering(false, false, 16_000), 0);
    assert_eq!(apply_steering(true, false, 1_000_000), 6_000_000);
    assert_eq!(apply_steering(true, false, u32::MAX), 6 * (u32::MAX as i64));
}

#[test]
fn throttle_pushes_the_car_along_its_heading() {
    assert_eq!(get_acceleration_input(true, false), 1_000_000);
    assert_eq!(get_acceleration_input(false, true), -1_000_000);
    assert_eq!(get_acceleration_input(true, true), 0);
    assert_eq!(get_acceleration_input(false, false), 0);
    let mut v = velocity(10, 20);
    apply_acceleration(true, false, &turned(10_000, 0), &mut v, 16_000);
    assert_eq!(v, velocity(10, 16_020));
    // The car points right: forward is along x.
    let mut v = velocity(10, 20);
    apply_acceleration(true, false, &turned(0, -10_000), &mut v, 16_000);
    assert_eq!(v, velocity(16_010, 20));
    // The brake pushes backwards.
    let mut v = velocity(10, 20);
    apply_acceleration(false, true, &turned(6_000, 8_000), &mut v, 10_000);
    assert_eq!(v, velocity(10 + 8_000, 20 - 6_000));
    // No key, no push.
    let mut v = velocity(10, 20);
    apply_acceleration(false, false, &turned(6_000, 8_000), &mut v, 10_000);
    assert_eq!(v, velocity(10, 20));
}

#[test]
fn input_steers_and_pushes() {
    let mut v = velocity(0, 0);
    let turn = handle_input(true, false, true, false, &turned(10_000, 0), &mut v, 16_000);
    assert_eq!(turn, 96_000);
    assert_eq!(v, velocity(0, 16_000));
}

#[test]
fn car_moves_along_its_heading_and_slows_down() {
    let mut transform = Transform::from_xy(0, 0);
    let mut v = velocity(0, 100_000);
    move_car(&mut transform, &mut v, None, 10_000);
    // Friction takes 4000 in 10 milliseconds; the car moves by the rest.
    assert_eq!(v, velocity(0, 96_000));
    assert_eq!(transform.translation, Vec2 { x: 0, y: 960 });
    assert_eq!(transform.rotation, Rotation { cos: 10_000, sin: 0 });
}

#[test]
fn car_that_slides_sideways_is_slowed_by_grip_then_by_friction_then_limited() {
    let mut transform = Transform::from_xy(0, 0);
    let mut v = velocity(3_000_000, 400_000);
    move_car(&mut transform, &mut v, None, 10_000);
    // Grip: (300000, 400000). Friction: speed 500000 loses 4000: (297600, 396800).
    // Limit 250000 over 496000: (150000, 200000). Move: (1500, 2000).
    assert_eq!(v, velocity(150_000, 200_000));
    assert_eq!(transform.translation, Vec2 { x: 1_500, y: 2_000 });
}

#[test]
fn car_stays_in_the_world() {
    let mut transform = Transform::from_xy(644_000, 390_000);
    let mut v = velocity(250_000, 250_000);
    for _ in 0..100 {
        v = velocity(250_000, 250_000);
        move_car(&mut transform, &mut v, None, 16_000);
        assert!(transform.translation.x <= 645_000);
        assert!(transform.translation.y <= 391_000);
    }
    assert_eq!(transform.translation, Vec2 { x: 645_000, y: 391_000 });
    assert_eq!(v, velocity(0, 0));
}

#[test]
fn car_at_rest_stays_at_rest() {
    let mut transform = Transform::from_xy(10, 20).with_rotation(Rotation { cos: 6_000, sin: -8_000 });
    let mut v = velocity(0, 0);
    move_car(&mut transform, &mut v, None, 16_000);
    assert_eq!(v, velocity(0, 0));
    assert_eq!(transform.translation, Vec2 { x: 10, y: 20 });
}

#[test]
fn boost_is_full_when_it_is_picked_up() {
    let boost = NosBoostAvailable::new(NOS_AVAILABILITY_DURATION);
    assert_eq!(NOS_AVAILABILITY_DURATION, 2_000_000);
    assert_eq!(boost.remaining_fraction(), 1000);
    assert!(!boost.active);
    assert_eq!(boost.timer, Timer { duration: 2_000_000, elapsed: 0 });
}

#[test]
fn boost_runs_out_evenly_and_is_removed() {
    let mut boost = Some(NosBoostAvailable::new(NOS_AVAILABILITY_DURATION));
    let mut expected = 1000;
    for _ in 0..19 {
        update_nos_boost(&mut boost, false, 100_000);
        expected -= 50;
        let available = boost.expect("a boost");
        assert_eq!(available.remaining_fraction(), expected);
        assert!(!available.active);
    }
    assert_eq!(expected, 50);
    update_nos_boost(&mut boost, false, 100_000);
    assert_eq!(boost, None);
    // Without a boost the top speed is the ordinary one.
    let mut v = velocity(0, 375_000);
    clamp_speed(&mut v, boost.as_ref());
    assert_eq!(v, velocity(0, 250_000));
    update_nos_boost(&mut boost, true, 100_000);
    assert_eq!(boost, None);
}

#[test]
fn boost_is_active_while_the_key_is_held() {
    let mut boost = Some(NosBoostAvailable::new(NOS_AVAILABILITY_DURATION));
    update_nos_boost(&mut boost, true, 500_000);
    assert_eq!(boost, Some(NosBoostAvailable { timer: Timer { duration: 2_000_000, elapsed: 500_000 }, active: true }));
    assert_eq!(boost.unwrap().remaining_fraction(), 750);
    update_nos_boost(&mut boost, false, 500_000);
    assert_eq!(boost.unwrap().active, false);
    assert_eq!(boost.unwrap().remaining_fraction(), 500);
    // The boost ends with its time, key held or not.
    update_nos_boost(&mut boost, true, 1_000_000);
    assert_eq!(boost, None);
}

#[test]
fn boost_ends_at_once_in_a_long_step() {
    let mut boost = Some(NosBoostAvailable::new(NOS_AVAILABILITY_DURATION));
    update_nos_boost(&mut boost, true, u64::MAX);
    assert_eq!(boost, None);
    let mut boost = Some(NosBoostAvailable { timer: Timer { duration: 10, elapsed: u64::MAX }, active: true });
    update_nos_boost(&mut boost, true, 1);
    assert_eq!(boost, None);
}

#[test]
fn remaining_fraction_is_rounded_down_and_nothing_of_no_time() {
    let boost = NosBoostAvailable { timer: Timer { duration: 3, elapsed: 1 }, active: false };
    assert_eq!(boost.remaining_fraction(), 666);
    let boost = NosBoostAvailable { timer: Timer { duration: 0, elapsed: 0 }, active: false };
    assert_eq!(boost.remaining_fraction(), 0);
    let boost = NosBoostAvailable { timer: Timer { duration: u64::MAX, elapsed: 1 }, active: false };
    assert_eq!(boost.remaining_fraction(), 999);
    let boost = NosBoostAvailable { timer: Timer { duration: 5, elapsed: 9 }, active: false };
    assert_eq!(boost.remaining_fraction(), 0);
}

#[test]
fn timer_stops_at_its_duration() {
    let mut timer = Timer::new(100);
    assert!(!timer.is_finished());
    timer.tick(99);
    assert_eq!(timer.elapsed, 99);
    assert!(!timer.is_finished());
    timer.tick(1);
    assert!(timer.is_finished());
    timer.tick(50);
    assert_eq!(timer.elapsed, 100);
    assert!(Timer::new(0).is_finished());
}

#[test]
fn long_frame_is_cut_to_the_longest_step() {
    assert_eq!(step_delta(0), 0);
    assert_eq!(step_delta(16_000), 16_000);
    assert_eq!(step_delta(1_000_000), 1_000_000);
    assert_eq!(step_delta(1_000_001), 1_000_000);
    assert_eq!(step_delta(u64::MAX), 1_000_000);
}

#[test]
fn keys_act_on_a_car_in_range_as_in_a_step() {
    let mut v = velocity(10, 20);
    let turn = try_handle_input(true, false, true, false, &turned(10_000, 0), &mut v, 16_000);
    assert_eq!(turn, Some(96_000));
    assert_eq!(v, velocity(10, 16_020));
    // A frame of an hour counts as one second.
    let mut v = velocity(0, 0);
    let turn = try_handle_input(false, true, false, true, &turned(10_000, 0), &mut v, 3_600_000_000);
    assert_eq!(turn, Some(-6_000_000));
    assert_eq!(v, velocity(0, -1_000_000));
    // On the rim of the range.
    let mut v = velocity(399_000_000, -399_000_000);
    assert!(try_handle_input(false, false, false, false, &turned(0, -10_000), &mut v, 5).is_some());
}

#[test]
fn keys_leave_a_car_out_of_range_alone() {
    let mut v = velocity(399_000_001, 0);
    assert_eq!(try_handle_input(true, false, true, false, &turned(10_000, 0), &mut v, 16_000), None);
    assert_eq!(v, velocity(399_000_001, 0));
    let mut v = velocity(0, i32::MIN);
    assert_eq!(try_handle_input(true, false, true, false, &turned(10_000, 0), &mut v, 16_000), None);
    assert_eq!(v, velocity(0, i32::MIN));
    // A rotation that stretches.
    let mut v = velocity(0, 0);
    assert_eq!(try_handle_input(true, false, true, false, &turned(10_001, 0), &mut v, 16_000), None);
    assert_eq!(v, velocity(0, 0));
}

#[test]
fn car_in_range_moves_as_in_a_step() {
    let mut transform = Transform::from_xy(0, 0);
    let mut v = velocity(0, 100_000);
    assert!(try_move_car(&mut transform, &mut v, None, 10_000));
    assert_eq!(v, velocity(0, 96_000));
    assert_eq!(transform.translation, Vec2 { x: 0, y: 960 });
    // A frame of an hour counts as one second: friction stops the car.
    let mut transform = Transform::from_xy(0, 0);
    let mut v = velocity(0, 400_000);
    assert!(try_move_car(&mut transform, &mut v, None, 3_600_000_000));
    assert_eq!(v, velocity(0, 0));
    assert_eq!(transform.translation, Vec2 { x: 0, y: 0 });
    // From far out the car is put against the wall.
    let mut transform = Transform::from_xy(1_000_000_000, -1_000_000_000);
    let mut v = velocity(400_000_000, 400_000_000);
    assert!(try_move_car(&mut transform, &mut v, None, 16_000));
    assert_eq!(transform.translation, Vec2 { x: 645_000, y: -391_000 });
}

#[test]
fn car_out_of_range_is_not_moved() {
    let cases = [
        (Transform::from_xy(1_000_000_001, 0), velocity(0, 1)),
        (Transform::from_xy(0, i32::MIN), velocity(0, 1)),
        (Transform::from_xy(0, 0), velocity(400_000_001, 0)),
        (Transform::from_xy(0, 0).with_rotation(Rotation { cos: 0, sin: -10_001 }), velocity(0, 1)),
    ];
    for (transform, v) in cases {
        let mut moved_transform = transform;
        let mut moved_velocity = v;
        assert!(!try_move_car(&mut moved_transform, &mut moved_velocity, None, 16_000));
        assert_eq!(moved_transform, transform);
        assert_eq!(moved_velocity, v);
    }
}
