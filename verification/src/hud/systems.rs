use vstd::prelude::*;
use crate::collision::Vec2;
use crate::hud::components::{saturating_sum, RaceState, RaceStatus, Stopwatch};
use crate::hud::constants::OFF_ROAD_TIME_MULTIPLIER;
use crate::hud::helpers::{crossed_line, has_crossed_line, is_within_line_x_bounds, within_line_x_bounds};
use crate::road::components::{Direction, FinishLine, RoadSegment, StartLine};
use crate::road::systems::{all_segments_visited, all_visited};

verus! {

/// The race state at the start of a level: waiting, on the road, the
/// stopwatch at zero.
pub fn init_race_state(car_start_y: i32) -> (state: RaceState)
    ensures
        state.status == RaceStatus::WaitingToStart,
        state.stopwatch.elapsed == 0,
        !state.stopwatch.paused,
        state.final_time is None,
        state.car_last_y == car_start_y,
        state.is_on_road,
{
    RaceState {
        stopwatch: Stopwatch::new(),
        status: RaceStatus::WaitingToStart,
        final_time: None,
        car_last_y: car_start_y,
        is_on_road: true,
    }
}

/// Whether a car that was at height `car_last_y` and is at `car_pos` now
/// has crossed the line at `line_pos`: near enough to it sideways, and from
/// one side to the other in the given direction.
pub open spec fn crossed_line_at(car_pos: Vec2, car_last_y: int, line_pos: Vec2, direction: Direction) -> bool {
    &&& within_line_x_bounds(car_pos.x as int, line_pos.x as int)
    &&& crossed_line(car_pos.y as int, car_last_y, line_pos.y as int, direction)
}

/// Checks if the car crossed a line (used for start/finish detection).
pub fn has_crossed_line_at(car_pos: Vec2, car_last_y: i32, line_pos: Vec2, direction: Direction) -> (crossed:
    bool)
    ensures
        crossed == crossed_line_at(car_pos, car_last_y as int, line_pos, direction),
{
    let within_x_bounds = is_within_line_x_bounds(car_pos.x, line_pos.x);
    let crossed = has_crossed_line(car_pos.y, car_last_y, line_pos.y, direction);
    within_x_bounds && crossed
}

/// The race state after the check of the start line.
pub open spec fn after_start_check(state: RaceState, car_pos: Vec2, start_line: StartLine) -> RaceState {
    if state.status != RaceStatus::WaitingToStart {
        state
    } else if crossed_line_at(car_pos, state.car_last_y as int, start_line.position, start_line.direction) {
        RaceState {
            stopwatch: Stopwatch { elapsed: 0, paused: false },
            status: RaceStatus::Racing,
            final_time: state.final_time,
            car_last_y: car_pos.y,
            is_on_road: state.is_on_road,
        }
    } else {
        RaceState {
            stopwatch: state.stopwatch,
            status: state.status,
            final_time: state.final_time,
            car_last_y: car_pos.y,
            is_on_road: state.is_on_road,
        }
    }
}

/// Checks if the car crosses the start line, and starts the race if it does.
/// Only a race that waits to start is changed; of such a race the car's
/// height is stored for the next frame, crossing or not.
pub fn check_start_line_crossing(car_pos: Vec2, start_line: &StartLine, race_state: &mut RaceState)
    ensures
        *final(race_state) == after_start_check(*old(race_state), car_pos, *start_line),
{
    // Only check for start crossing before race begins.
    if race_state.status != RaceStatus::WaitingToStart {
        return;
    }
    if has_crossed_line_at(car_pos, race_state.car_last_y, start_line.position, start_line.direction) {
        race_state.start_race();
    }
    race_state.set_previous_car_y(car_pos.y);
}

/// The race state after the check of the finish line, given whether every
/// segment has been visited.
pub open spec fn after_finish_check(
    state: RaceState,
    car_pos: Vec2,
    finish_line: FinishLine,
    all_visited: bool,
) -> RaceState {
    if state.status != RaceStatus::Racing {
        state
    } else if all_visited && crossed_line_at(
        car_pos,
        state.car_last_y as int,
        finish_line.position,
        finish_line.direction,
    ) {
        RaceState {
            stopwatch: Stopwatch { elapsed: state.stopwatch.elapsed, paused: true },
            status: RaceStatus::Finished,
            final_time: Some(state.stopwatch.elapsed),
            car_last_y: car_pos.y,
            is_on_road: state.is_on_road,
        }
    } else {
        RaceState {
            stopwatch: state.stopwatch,
            status: state.status,
            final_time: state.final_time,
            car_last_y: car_pos.y,
            is_on_road: state.is_on_road,
        }
    }
}

/// Checks if the car crosses the finish line, and finishes the race if it
/// does and every segment has been visited. A crossing with a segment left
/// unvisited is ignored. Only a race in progress is changed; of such a race
/// the car's height is stored for the next frame, crossing or not.
pub fn check_finish_line_crossing(
    car_pos: Vec2,
    finish_line: &FinishLine,
    segments: &Vec<RoadSegment>,
    race_state: &mut RaceState,
)
    ensures
        *final(race_state) == after_finish_check(
            *old(race_state),
            car_pos,
            *finish_line,
            all_visited(segments@),
        ),
        final(race_state).status == RaceStatus::Finished <==> old(race_state).status
            == RaceStatus::Finished || (old(race_state).status == RaceStatus::Racing && all_visited(
            segments@,
        ) && crossed_line_at(
            car_pos,
            old(race_state).car_last_y as int,
            finish_line.position,
            finish_line.direction,
        )),
{
    // Only check for finish crossing while actively racing.
    if race_state.status != RaceStatus::Racing {
        return;
    }
    if has_crossed_line_at(car_pos, race_state.car_last_y, finish_line.position, finish_line.direction) {
        if all_segments_visited(segments) {
            race_state.finish_race();
        }
    }
    race_state.set_previous_car_y(car_pos.y);
}

/// The time that the stopwatch of a race shows after `delta` microseconds
/// more: a race in progress advances by `delta` on the road and by the
/// off-road multiple of it off the road; no other race advances.
pub open spec fn elapsed_after_tick(state: RaceState, delta: u64) -> int {
    if state.status != RaceStatus::Racing || state.stopwatch.paused {
        state.stopwatch.elapsed as int
    } else if state.is_on_road {
        saturating_sum(state.stopwatch.elapsed as int, delta as int)
    } else {
        saturating_sum(state.stopwatch.elapsed as int, delta * OFF_ROAD_TIME_MULTIPLIER)
    }
}

/// Ticks the race timer.
pub fn tick_race_timer(race_state: &mut RaceState, delta: u64)
    ensures
        final(race_state).stopwatch.elapsed == elapsed_after_tick(*old(race_state), delta),
        final(race_state).stopwatch.paused == old(race_state).stopwatch.paused,
        final(race_state).status == old(race_state).status,
        final(race_state).final_time == old(race_state).final_time,
        final(race_state).car_last_y == old(race_state).car_last_y,
        final(race_state).is_on_road == old(race_state).is_on_road,
{
    if race_state.status == RaceStatus::Racing {
        let multiplier: u64 = if race_state.is_on_road {
            1
        } else {
            OFF_ROAD_TIME_MULTIPLIER
        };
        let scaled: u64 = if delta > u64::MAX / multiplier {
            u64::MAX
        } else {
            delta * multiplier
        };
        race_state.stopwatch.tick(scaled);
    }
}

/// Updates the race state with current road status (used for time multiplier).
pub fn handle_off_road_logic(is_on_road: bool, race_state: &mut RaceState)
    ensures
        final(race_state).is_on_road == is_on_road,
        final(race_state).stopwatch == old(race_state).stopwatch,
        final(race_state).status == old(race_state).status,
        final(race_state).final_time == old(race_state).final_time,
        final(race_state).car_last_y == old(race_state).car_last_y,
{
    race_state.is_on_road = is_on_road;
}

/// Whether the race is finished, and the level complete.
pub fn check_race_finished(race_state: &RaceState) -> (finished: bool)
    ensures
        finished == (race_state.status == RaceStatus::Finished),
{
    race_state.status == RaceStatus::Finished
}

/// A race never goes back: no check and no tick leads from a later status to
/// an earlier one, and none skips the race itself.
pub proof fn lemma_race_status_only_advances(
    state: RaceState,
    car_pos: Vec2,
    start_line: StartLine,
    finish_line: FinishLine,
    everything_visited: bool,
)
    ensures
        status_rank(after_start_check(state, car_pos, start_line).status) >= status_rank(state.status),
        status_rank(after_finish_check(state, car_pos, finish_line, everything_visited).status)
            >= status_rank(state.status),
        status_rank(after_start_check(state, car_pos, start_line).status) <= status_rank(state.status) + 1,
        status_rank(after_finish_check(state, car_pos, finish_line, everything_visited).status)
            <= status_rank(state.status) + 1,
{
}

/// The place of a status in the life of a race.
pub open spec fn status_rank(status: RaceStatus) -> int {
    match status {
        RaceStatus::WaitingToStart => 0,
        RaceStatus::Racing => 1,
        RaceStatus::Finished => 2,
    }
}

} // verus!
