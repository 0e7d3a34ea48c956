//! One step of the race, in the order that its rules depend on.

use vstd::prelude::*;
use crate::collision::Transform;
use crate::hud::components::{RaceState, RaceStatus, Stopwatch};
use crate::hud::systems::{
    after_finish_check, after_start_check, check_finish_line_crossing, check_race_finished,
    check_start_line_crossing, elapsed_after_tick, handle_off_road_logic, tick_race_timer,
};
use crate::road::components::{FinishLine, RoadSegment, StartLine};
use crate::road::systems::{
    all_visited, car_on_road, car_touches, check_car_on_road, update_segment_visited_status,
};

verus! {

/// The race state with the road status replaced.
pub open spec fn with_road_status(state: RaceState, is_on_road: bool) -> RaceState {
    RaceState {
        stopwatch: state.stopwatch,
        status: state.status,
        final_time: state.final_time,
        car_last_y: state.car_last_y,
        is_on_road,
    }
}

/// The race state with the stopwatch's time replaced.
pub open spec fn with_elapsed(state: RaceState, elapsed: int) -> RaceState {
    RaceState {
        stopwatch: Stopwatch { elapsed: elapsed as u64, paused: state.stopwatch.paused },
        status: state.status,
        final_time: state.final_time,
        car_last_y: state.car_last_y,
        is_on_road: state.is_on_road,
    }
}

/// The race state after one step: the road status is that of the car's pose,
/// then the finish line is checked against the segments as they are marked
/// after this step, then the start line, then the timer ticks.
pub open spec fn race_after_step(
    state: RaceState,
    car: Transform,
    segments_before: Seq<RoadSegment>,
    segments_after: Seq<RoadSegment>,
    start_line: StartLine,
    finish_line: FinishLine,
    delta: u64,
) -> RaceState {
    let on_road = with_road_status(state, car_on_road(car, segments_before));
    let finish_checked = after_finish_check(
        on_road,
        car.translation,
        finish_line,
        all_visited(segments_after),
    );
    let start_checked = after_start_check(finish_checked, car.translation, start_line);
    with_elapsed(start_checked, elapsed_after_tick(start_checked, delta))
}

/// One step of the race for a car that has already moved: whether the car is
/// on the road, which segments it has visited, whether it has crossed the
/// finish line after visiting them all, whether it has crossed the start
/// line, and how much time has passed, in this order. A segment that is
/// marked stays marked, and while the race is not finished the car's height
/// is stored for the next step. Returns the final time in the step in which
/// the race finishes, and in no other.
pub fn update_race(
    car_transform: &Transform,
    segments: &mut Vec<RoadSegment>,
    start_line: &StartLine,
    finish_line: &FinishLine,
    race_state: &mut RaceState,
    delta: u64,
) -> (finished_now: Option<u64>)
    ensures
        final(segments)@.len() == old(segments)@.len(),
        forall|j: int|
            0 <= j < old(segments)@.len() ==> (#[trigger] final(segments)@[j]).visited == (old(segments)@[j].visited || car_touches(*car_transform, old(segments)@[j])),
        forall|j: int|
            0 <= j < old(segments)@.len() ==> (#[trigger] final(segments)@[j]).segment_type == old(segments)@[j].segment_type && final(segments)@[j].direction == old(segments)@[j].direction && final(segments)@[j].transform == old(segments)@[j].transform,
        forall|j: int|
            0 <= j < old(segments)@.len() && old(segments)@[j].visited ==> (#[trigger] final(segments)@[j]).visited,
        *final(race_state) == race_after_step(
            *old(race_state),
            *car_transform,
            old(segments)@,
            final(segments)@,
            *start_line,
            *finish_line,
            delta,
        ),
        old(race_state).status != RaceStatus::Finished ==> final(race_state).car_last_y
            == car_transform.translation.y,
        finished_now is Some <==> old(race_state).status == RaceStatus::Racing && final(race_state).status == RaceStatus::Finished,
        finished_now is Some ==> finished_now == final(race_state).final_time,
{
    let was_racing = race_state.status == RaceStatus::Racing;
    let is_on_road = check_car_on_road(car_transform, segments);
    handle_off_road_logic(is_on_road, race_state);
    update_segment_visited_status(car_transform, segments);
    check_finish_line_crossing(car_transform.translation, finish_line, segments, race_state);
    check_start_line_crossing(car_transform.translation, start_line, race_state);
    tick_race_timer(race_state, delta);
    if was_racing && check_race_finished(race_state) {
        race_state.final_time
    } else {
        None
    }
}

} // verus!
