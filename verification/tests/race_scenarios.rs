use bevy_driver::collision::{Rotation, Transform, Vec2};
use bevy_driver::race::update_race;
use bevy_driver::hud::components::{RaceState, RaceStatus};
use bevy_driver::hud::systems::{
    check_finish_line_crossing, check_race_finished, check_start_line_crossing, init_race_state,
    tick_race_timer,
};
use bevy_driver::road::components::{
    Direction, FinishLine, RoadSegment, RoadSegmentType, StartLine, Track,
};
use bevy_driver::road::layout::validate_layout;
use bevy_driver::road::layout::InvalidTrack;
use bevy_driver::road::systems::{
    all_segments_visited, check_car_on_road, spawn_finish_line, spawn_start_line,
    spawn_straight_road, spawn_track, update_segment_visited_status,
};

const S: RoadSegmentType = RoadSegmentType::Straight;
const R: RoadSegmentType = RoadSegmentType::CornerRight;

/// A loop of two columns: up the left one, down the right one.
fn small_loop() -> Track {
    Track { layout: vec![S, S, R, R, S, S, R, R], starting_point: Vec2 { x: 0, y: 0 } }
}

/// The pose of a car at `(x, y)` world units whose nose points `degrees`
/// counter-clockwise from up.
fn pose(x: f64, y: f64, degrees: f64) -> Transform {
    let radians = degrees.to_radians();
    Transform {
        translation: Vec2 { x: x.round() as i32, y: y.round() as i32 },
        rotation: Rotation {
            cos: (radians.cos() * 10_000.0).round() as i16,
            sin: (radians.sin() * 10_000.0).round() as i16,
        },
    }
}

/// The poses of a car that drives once round the small loop, from its
/// starting point to well past the start line again, in steps of two pixels
/// or less.
fn lap_of_small_loop() -> Vec<Transform> {
    let mut poses = Vec::new();
    let px = 1000.0;
    // Up the left column.
    let mut y = 0.0;
    while y < 75.0 {
        poses.push(pose(0.0, y * px, 0.0));
        y += 2.0;
    }
    // Round the upper pivot, clockwise, from its left to its right.
    let mut a: f64 = 180.0;
    while a > 0.0 {
        let r = a.to_radians();
        poses.push(pose((25.0 + 25.0 * r.cos()) * px, (75.0 + 25.0 * r.sin()) * px, a - 180.0));
        a -= 4.0;
    }
    // Down the right column.
    let mut y = 75.0;
    while y > -25.0 {
        poses.push(pose(50.0 * px, y * px, 180.0));
        y -= 2.0;
    }
    // Round the lower pivot, clockwise, from its right to its left.
    let mut a: f64 = 0.0;
    while a > -180.0 {
        let r = a.to_radians();
        poses.push(pose((25.0 + 25.0 * r.cos()) * px, (-25.0 + 25.0 * r.sin()) * px, a + 180.0));
        a -= 4.0;
    }
    // Up the left column again, over the finish line and the start line.
    let mut y = -25.0;
    while y < 30.0 {
        poses.push(pose(0.0, y * px, 0.0));
        y += 2.0;
    }
    poses
}

/// The segments of a valid track.
fn place(track: &Track) -> Vec<RoadSegment> {
    spawn_track(track).expect("a valid track")
}

/// One straight segment around the origin, entered heading up.
fn lone_straight() -> Vec<RoadSegment> {
    let (segment, _) = spawn_straight_road(Vec2 { x: 0, y: -25_000 }, Direction::Up, S);
    vec![segment]
}

fn lines(track: &Track) -> (StartLine, FinishLine) {
    let start = spawn_start_line(track.starting_point, Direction::Up);
    let finish = spawn_finish_line(
        Vec2 { x: track.starting_point.x, y: track.starting_point.y - 18_000 },
        Direction::Up,
    );
    (start, finish)
}

#[test]
fn small_loop_is_a_closed_loop() {
    assert_eq!(validate_layout(&small_loop().layout), Ok(()));
}

#[test]
fn start_line_is_a_car_length_ahead() {
    let (start, finish) = lines(&small_loop());
    assert_eq!(start.position, Vec2 { x: 0, y: 18_000 });
    assert_eq!(start.direction, Direction::Up);
    assert_eq!(finish.position, Vec2 { x: 0, y: -18_000 });
}

#[test]
fn full_lap_goes_from_waiting_to_racing_to_finished() {
    let track = small_loop();
    let mut segments = place(&track);
    let (start, finish) = lines(&track);
    let mut state = init_race_state(track.starting_point.y);
    assert_eq!(state.status, RaceStatus::WaitingToStart);
    let mut seen_racing = false;
    let mut finished_at = None;
    let mut events = 0;
    for (tick, car) in lap_of_small_loop().iter().enumerate() {
        let before = state.status;
        let finished_now = update_race(car, &mut segments, &start, &finish, &mut state, 16_000);
        assert!(state.is_on_road, "off the road at tick {}", tick);
        assert_eq!(finished_now.is_some(), before == RaceStatus::Racing && state.status == RaceStatus::Finished);
        if let Some(time) = finished_now {
            assert_eq!(events, 0);
            assert_eq!(Some(time), state.final_time);
            events += 1;
        }
        if state.status != RaceStatus::Finished {
            assert_eq!(state.car_last_y, car.translation.y);
        }
        match (before, state.status) {
            (RaceStatus::WaitingToStart, RaceStatus::WaitingToStart) => {}
            (RaceStatus::WaitingToStart, RaceStatus::Racing) => seen_racing = true,
            (RaceStatus::Racing, RaceStatus::Racing) => {}
            (RaceStatus::Racing, RaceStatus::Finished) => finished_at = Some(tick),
            (RaceStatus::Finished, RaceStatus::Finished) => {}
            (a, b) => panic!("status went from {:?} to {:?}", a, b),
        }
    }
    assert!(seen_racing);
    assert!(finished_at.is_some());
    assert_eq!(events, 1);
    assert_eq!(state.status, RaceStatus::Finished);
    assert!(check_race_finished(&state));
    assert!(all_segments_visited(&segments));
    let final_time = state.final_time.expect("a final time");
    assert!(final_time > 0);
    assert_eq!(final_time, state.stopwatch.elapsed);
    assert!(state.stopwatch.paused);
}

#[test]
fn car_in_the_middle_of_a_straight_stays_on_the_road() {
    let segments = lone_straight();
    assert_eq!(segments.len(), 1);
    // The car is 18 long and the segment 50: its centre may lie up to 16 from
    // the middle of the segment.
    let mut y = -16_000;
    while y <= 16_000 {
        assert!(check_car_on_road(&pose(0.0, y as f64, 0.0), &segments), "at {}", y);
        y += 500;
    }
    assert!(!check_car_on_road(&pose(0.0, 16_001.0, 0.0), &segments));
    assert!(!check_car_on_road(&pose(0.0, -16_001.0, 0.0), &segments));
}

#[test]
fn car_circling_beside_the_track_is_off_the_road_and_pays_for_it() {
    let track = small_loop();
    let mut segments = place(&track);
    let (start, finish) = lines(&track);
    let mut state = init_race_state(0);
    state.start_race();
    let mut degrees = 0.0f64;
    let mut ticks = 0u64;
    while degrees < 360.0 {
        let r = degrees.to_radians();
        // A circle of radius 20 pixels, 300 pixels to the left of the track.
        let car = pose(-300_000.0 + 20_000.0 * r.cos(), 20_000.0 * r.sin(), degrees + 90.0);
        assert!(!check_car_on_road(&car, &segments));
        let before = state.stopwatch.elapsed;
        let finished_now = update_race(&car, &mut segments, &start, &finish, &mut state, 16_000);
        assert_eq!(finished_now, None);
        assert!(!state.is_on_road);
        assert_eq!(state.stopwatch.elapsed - before, 160_000);
        assert_eq!(state.status, RaceStatus::Racing);
        degrees += 5.0;
        ticks += 1;
    }
    assert_eq!(state.stopwatch.elapsed, ticks * 160_000);
    assert!(segments.iter().all(|s| !s.visited));
}

#[test]
fn timer_runs_at_normal_speed_on_the_road() {
    let mut state = init_race_state(0);
    state.start_race();
    tick_race_timer(&mut state, 16_000);
    assert_eq!(state.stopwatch.elapsed, 16_000);
    state.is_on_road = false;
    tick_race_timer(&mut state, 16_000);
    assert_eq!(state.stopwatch.elapsed, 176_000);
}

#[test]
fn timer_does_not_run_before_the_start_nor_after_the_finish() {
    let mut state = init_race_state(0);
    tick_race_timer(&mut state, 16_000);
    assert_eq!(state.stopwatch.elapsed, 0);
    state.start_race();
    tick_race_timer(&mut state, 16_000);
    state.finish_race();
    tick_race_timer(&mut state, 16_000);
    assert_eq!(state.stopwatch.elapsed, 16_000);
    assert_eq!(state.final_time, Some(16_000));
}

#[test]
fn timer_stops_at_the_largest_time() {
    let mut state = init_race_state(0);
    state.start_race();
    state.is_on_road = false;
    tick_race_timer(&mut state, u64::MAX / 2);
    assert_eq!(state.stopwatch.elapsed, u64::MAX);
}

fn racing_state(car_last_y: i32) -> RaceState {
    let mut state = init_race_state(car_last_y);
    state.start_race();
    state
}

#[test]
fn finish_line_is_ignored_while_a_segment_is_unvisited() {
    let track = small_loop();
    let mut segments: Vec<RoadSegment> = place(&track);
    let (_, finish) = lines(&track);
    // Every segment but the last is visited.
    for k in 0..segments.len() - 1 {
        segments[k].visited = true;
    }
    let mut state = racing_state(-20_000);
    check_finish_line_crossing(Vec2 { x: 0, y: -17_000 }, &finish, &segments, &mut state);
    assert_eq!(state.status, RaceStatus::Racing);
    assert_eq!(state.final_time, None);
    assert_eq!(state.car_last_y, -17_000);

    // The car goes back, the last segment is visited, and it crosses again.
    check_finish_line_crossing(Vec2 { x: 0, y: -20_000 }, &finish, &segments, &mut state);
    assert_eq!(state.status, RaceStatus::Racing);
    let last = segments.len() - 1;
    segments[last].visited = true;
    tick_race_timer(&mut state, 1_000_000);
    check_finish_line_crossing(Vec2 { x: 0, y: -17_000 }, &finish, &segments, &mut state);
    assert_eq!(state.status, RaceStatus::Finished);
    assert_eq!(state.final_time, Some(1_000_000));
}

#[test]
fn finish_line_is_not_crossed_from_the_side_nor_downwards() {
    let track = small_loop();
    let mut segments = place(&track);
    for segment in segments.iter_mut() {
        segment.visited = true;
    }
    let (_, finish) = lines(&track);
    let mut state = racing_state(-20_000);
    // Exactly half a road width to the side: not near enough.
    check_finish_line_crossing(Vec2 { x: 25_000, y: -17_000 }, &finish, &segments, &mut state);
    assert_eq!(state.status, RaceStatus::Racing);
    // Downwards over a line that asks for upwards.
    check_finish_line_crossing(Vec2 { x: 0, y: -20_000 }, &finish, &segments, &mut state);
    assert_eq!(state.status, RaceStatus::Racing);
    // Just inside the tolerance, upwards, starting on the line itself.
    state.set_previous_car_y(-18_000);
    check_finish_line_crossing(Vec2 { x: 24_999, y: -17_999 }, &finish, &segments, &mut state);
    assert_eq!(state.status, RaceStatus::Finished);
}

#[test]
fn start_line_starts_the_race_and_resets_the_clock() {
    let start = StartLine { position: Vec2 { x: 0, y: 18_000 }, direction: Direction::Up };
    let mut state = init_race_state(0);
    state.stopwatch.elapsed = 5;
    check_start_line_crossing(Vec2 { x: 0, y: 18_000 }, &start, &mut state);
    assert_eq!(state.status, RaceStatus::WaitingToStart);
    assert_eq!(state.car_last_y, 18_000);
    check_start_line_crossing(Vec2 { x: 0, y: 18_001 }, &start, &mut state);
    assert_eq!(state.status, RaceStatus::Racing);
    assert_eq!(state.stopwatch.elapsed, 0);
    assert!(!state.stopwatch.paused);
    assert_eq!(state.car_last_y, 18_001);
}

#[test]
fn checks_leave_a_race_alone_that_is_not_theirs() {
    let start = StartLine { position: Vec2 { x: 0, y: 18_000 }, direction: Direction::Up };
    let finish = FinishLine { position: Vec2 { x: 0, y: -18_000 }, direction: Direction::Up };
    let segments: Vec<RoadSegment> = Vec::new();
    // A finish check before the start changes nothing, not even the stored height.
    let mut state = init_race_state(-20_000);
    check_finish_line_crossing(Vec2 { x: 0, y: 0 }, &finish, &segments, &mut state);
    assert_eq!(state, init_race_state(-20_000));
    // A start check during the race changes nothing.
    let mut state = racing_state(0);
    let before = state;
    check_start_line_crossing(Vec2 { x: 0, y: 30_000 }, &start, &mut state);
    assert_eq!(state, before);
}

#[test]
fn visited_segments_stay_visited() {
    let track = small_loop();
    let mut segments = place(&track);
    let poses = lap_of_small_loop();
    let mut visited_before: Vec<bool> = segments.iter().map(|s| s.visited).collect();
    for car in poses.iter().chain(poses.iter()) {
        update_segment_visited_status(car, &mut segments);
        for (k, segment) in segments.iter().enumerate() {
            assert!(!visited_before[k] || segment.visited);
        }
        visited_before = segments.iter().map(|s| s.visited).collect();
    }
    assert!(all_segments_visited(&segments));
    // Far from the track nothing is unmarked.
    update_segment_visited_status(&pose(-500_000.0, 0.0, 0.0), &mut segments);
    assert!(all_segments_visited(&segments));
}

#[test]
fn a_segment_is_visited_on_partial_contact() {
    let mut segments = lone_straight();
    // Only the two right corners of the car are on the segment: the car is
    // not on the road, but the segment is visited.
    let car = pose(-29_000.0, 0.0, 0.0);
    assert!(!check_car_on_road(&car, &segments));
    update_segment_visited_status(&car, &mut segments);
    assert!(segments[0].visited);
}

#[test]
fn track_that_is_no_closed_loop_is_refused_and_nothing_is_placed() {
    let start = Vec2 { x: 0, y: 0 };
    let l = RoadSegmentType::CornerLeft;
    for (layout, error) in [
        (vec![], InvalidTrack::Empty),
        (vec![S], InvalidTrack::NotClosed),
        (vec![S, S, R, R], InvalidTrack::NotClosed),
        (vec![l, l, l, S], InvalidTrack::WrongExitDirection),
        (vec![l, l, l, l, S], InvalidTrack::SelfIntersection),
        (vec![S; 20_001], InvalidTrack::TooLong),
    ] {
        // A track that was not made by its constructor.
        let track = Track { layout, starting_point: start };
        match spawn_track(&track) {
            Err(found) => assert_eq!(found, error),
            Ok(segments) => panic!("{} segments were placed", segments.len()),
        }
    }
}

#[test]
fn valid_track_is_placed_segment_by_segment() {
    let track = small_loop();
    let segments = spawn_track(&track).expect("a valid track");
    assert_eq!(segments.len(), track.layout.len());
    for (segment, kind) in segments.iter().zip(track.layout.iter()) {
        assert_eq!(segment.segment_type, *kind);
        assert!(!segment.visited);
    }
}
