use vstd::prelude::*;

verus! {

/// The current status of the race.
#[derive(Clone, Copy, PartialEq, Eq, Debug, Structural)]
pub enum RaceStatus {
    /// Race hasn't started yet, waiting for car to cross start line.
    WaitingToStart,
    /// Race is in progress, timer is running.
    Racing,
    /// Race is finished, timer has stopped.
    Finished,
}

impl Default for RaceStatus {
    fn default() -> (status: RaceStatus)
        ensures
            status == RaceStatus::WaitingToStart,
    {
        RaceStatus::WaitingToStart
    }
}

/// A clock that counts microseconds while it is not paused.
#[derive(Clone, Copy, PartialEq, Eq, Debug, Structural)]
pub struct Stopwatch {
    pub elapsed: u64,
    pub paused: bool,
}

/// The sum of two times, or the largest time if the sum is larger.
pub open spec fn saturating_sum(a: int, b: int) -> int {
    if a + b > u64::MAX {
        u64::MAX as int
    } else {
        a + b
    }
}

impl Stopwatch {
    /// A stopwatch at zero that runs.
    pub fn new() -> (stopwatch: Stopwatch)
        ensures
            stopwatch.elapsed == 0,
            !stopwatch.paused,
    {
        Stopwatch { elapsed: 0, paused: false }
    }

    /// Advances the stopwatch by `delta` microseconds, unless it is paused.
    /// The time stops at the largest that the stopwatch can hold.
    pub fn tick(&mut self, delta: u64)
        ensures
            final(self).paused == old(self).paused,
            old(self).paused ==> final(self).elapsed == old(self).elapsed,
            !old(self).paused ==> final(self).elapsed == saturating_sum(
                old(self).elapsed as int,
                delta as int,
            ),
    {
        if !self.paused {
            if delta > u64::MAX - self.elapsed {
                self.elapsed = u64::MAX;
            } else {
                self.elapsed = self.elapsed + delta;
            }
        }
    }

    /// Sets the time back to zero.
    pub fn reset(&mut self)
        ensures
            final(self).elapsed == 0,
            final(self).paused == old(self).paused,
    {
        self.elapsed = 0;
    }

    /// Stops the stopwatch.
    pub fn pause(&mut self)
        ensures
            final(self).elapsed == old(self).elapsed,
            final(self).paused,
    {
        self.paused = true;
    }

    /// Lets the stopwatch run.
    pub fn unpause(&mut self)
        ensures
            final(self).elapsed == old(self).elapsed,
            !final(self).paused,
    {
        self.paused = false;
    }
}

/// The race state and timing.
#[derive(Clone, Copy, PartialEq, Eq, Debug, Structural)]
pub struct RaceState {
    /// The stopwatch tracking elapsed time.
    pub stopwatch: Stopwatch,
    /// Current status of the race.
    pub status: RaceStatus,
    /// The final recorded time in microseconds (set when race finishes).
    pub final_time: Option<u64>,
    /// Car's Y position last frame (for crossing detection).
    pub car_last_y: i32,
    /// Whether the car is currently on the road (affects timer speed).
    pub is_on_road: bool,
}

impl RaceState {
    /// Starts the race: the stopwatch runs from zero.
    pub fn start_race(&mut self)
        ensures
            final(self).status == RaceStatus::Racing,
            final(self).stopwatch.elapsed == 0,
            !final(self).stopwatch.paused,
            final(self).final_time == old(self).final_time,
            final(self).car_last_y == old(self).car_last_y,
            final(self).is_on_road == old(self).is_on_road,
    {
        self.status = RaceStatus::Racing;
        self.stopwatch.reset();
        self.stopwatch.unpause();
    }

    /// Finishes the race: the stopwatch stops, and its time is the final
    /// time.
    pub fn finish_race(&mut self)
        ensures
            final(self).status == RaceStatus::Finished,
            final(self).stopwatch.elapsed == old(self).stopwatch.elapsed,
            final(self).stopwatch.paused,
            final(self).final_time == Some(old(self).stopwatch.elapsed),
            final(self).car_last_y == old(self).car_last_y,
            final(self).is_on_road == old(self).is_on_road,
    {
        self.status = RaceStatus::Finished;
        self.stopwatch.pause();
        self.final_time = Some(self.stopwatch.elapsed);
    }

    /// Stores the car's Y position from this frame for next frame's crossing
    /// detection.
    pub fn set_previous_car_y(&mut self, y: i32)
        ensures
            final(self).car_last_y == y,
            final(self).stopwatch == old(self).stopwatch,
            final(self).status == old(self).status,
            final(self).final_time == old(self).final_time,
            final(self).is_on_road == old(self).is_on_road,
    {
        self.car_last_y = y;
    }
}

} // verus!
