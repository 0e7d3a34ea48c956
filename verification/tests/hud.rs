use bevy_driver::collision::Vec2;
use bevy_driver::hud::components::{RaceStatus, Stopwatch};
use bevy_driver::hud::constants::OFF_ROAD_TIME_MULTIPLIER;
use bevy_driver::hud::helpers::{has_crossed_line, is_within_line_x_bounds, LINE_X_TOLERANCE};
use bevy_driver::hud::systems::{handle_off_road_logic, has_crossed_line_at, init_race_state};
use bevy_driver::road::components::Direction;
use bevy_driver::road::constants::ROAD_WIDTH;

#[test]
fn line_is_crossed_upwards_from_on_or_below_it_to_above_it() {
    assert!(has_crossed_line(11, 9, 10, Direction::Up));
    assert!(has_crossed_line(11, 10, 10, Direction::Up));
    assert!(!has_crossed_line(10, 9, 10, Direction::Up));
    assert!(!has_crossed_line(12, 11, 10, Direction::Up));
    assert!(!has_crossed_line(9, 11, 10, Direction::Up));
    assert!(!has_crossed_line(10, 10, 10, Direction::Up));
    assert!(has_crossed_line(i32::MAX, i32::MIN, 0, Direction::Up));
}

#[test]
fn line_is_crossed_downwards_from_on_or_above_it_to_below_it() {
    assert!(has_crossed_line(9, 11, 10, Direction::Down));
    assert!(has_crossed_line(9, 10, 10, Direction::Down));
    assert!(!has_crossed_line(10, 11, 10, Direction::Down));
    assert!(!has_crossed_line(8, 9, 10, Direction::Down));
    assert!(!has_crossed_line(11, 9, 10, Direction::Down));
    assert!(has_crossed_line(i32::MIN, i32::MAX, 0, Direction::Down));
}

#[test]
fn lines_are_not_crossed_sideways() {
    for (car_y, last_y) in [(11, 9), (9, 11), (10, 10)] {
        assert!(!has_crossed_line(car_y, last_y, 10, Direction::Left));
        assert!(!has_crossed_line(car_y, last_y, 10, Direction::Right));
    }
}

#[test]
fn car_is_beside_a_line_within_less_than_half_a_road_width() {
    assert_eq!(LINE_X_TOLERANCE, ROAD_WIDTH / 2);
    assert!(is_within_line_x_bounds(0, 0));
    assert!(is_within_line_x_bounds(24_999, 0));
    assert!(is_within_line_x_bounds(-24_999, 0));
    assert!(!is_within_line_x_bounds(25_000, 0));
    assert!(!is_within_line_x_bounds(-25_000, 0));
    assert!(is_within_line_x_bounds(100_000, 124_999));
    assert!(!is_within_line_x_bounds(100_000, 125_000));
    assert!(!is_within_line_x_bounds(i32::MAX, i32::MIN));
    assert!(!is_within_line_x_bounds(i32::MIN, i32::MAX));
    assert!(is_within_line_x_bounds(i32::MIN, i32::MIN));
}

#[test]
fn line_is_crossed_at_a_place_only_near_it() {
    let line = Vec2 { x: 1_000, y: 10 };
    assert!(has_crossed_line_at(Vec2 { x: 1_000, y: 11 }, 9, line, Direction::Up));
    assert!(has_crossed_line_at(Vec2 { x: 25_999, y: 11 }, 9, line, Direction::Up));
    assert!(!has_crossed_line_at(Vec2 { x: 26_000, y: 11 }, 9, line, Direction::Up));
    assert!(!has_crossed_line_at(Vec2 { x: 1_000, y: 10 }, 9, line, Direction::Up));
    assert!(has_crossed_line_at(Vec2 { x: -23_999, y: 9 }, 11, line, Direction::Down));
    assert!(!has_crossed_line_at(Vec2 { x: -24_000, y: 9 }, 11, line, Direction::Down));
}

#[test]
fn race_starts_waiting_on_the_road_at_zero() {
    let state = init_race_state(-75_000);
    assert_eq!(state.status, RaceStatus::WaitingToStart);
    assert_eq!(state.stopwatch, Stopwatch { elapsed: 0, paused: false });
    assert_eq!(state.final_time, None);
    assert_eq!(state.car_last_y, -75_000);
    assert!(state.is_on_road);
    assert_eq!(RaceStatus::default(), RaceStatus::WaitingToStart);
    assert_eq!(OFF_ROAD_TIME_MULTIPLIER, 10);
}

#[test]
fn road_status_is_stored() {
    let mut state = init_race_state(0);
    handle_off_road_logic(false, &mut state);
    assert!(!state.is_on_road);
    handle_off_road_logic(true, &mut state);
    assert!(state.is_on_road);
    assert_eq!(state.status, RaceStatus::WaitingToStart);
}

#[test]
fn stopwatch_counts_while_it_runs() {
    let mut stopwatch = Stopwatch::new();
    stopwatch.tick(5);
    stopwatch.tick(7);
    assert_eq!(stopwatch.elapsed, 12);
    stopwatch.pause();
    stopwatch.tick(100);
    assert_eq!(stopwatch.elapsed, 12);
    assert!(stopwatch.paused);
    stopwatch.unpause();
    stopwatch.tick(1);
    assert_eq!(stopwatch.elapsed, 13);
    stopwatch.tick(u64::MAX);
    assert_eq!(stopwatch.elapsed, u64::MAX);
    stopwatch.tick(1);
    assert_eq!(stopwatch.elapsed, u64::MAX);
    stopwatch.pause();
    stopwatch.reset();
    assert_eq!(stopwatch, Stopwatch { elapsed: 0, paused: true });
}
