use vstd::prelude::*;
use crate::collision::Vec2;

verus! {

/// The velocity of the car, in world units per second.
#[derive(Clone, Copy, PartialEq, Eq, Debug, Structural)]
pub struct Velocity(pub Vec2);

/// A timer that runs once: it counts microseconds up to its duration, and
/// is finished there.
#[derive(Clone, Copy, PartialEq, Eq, Debug, Structural)]
pub struct Timer {
    pub duration: u64,
    pub elapsed: u64,
}

impl Timer {
    /// A timer of the given duration that has not run yet.
    pub fn new(duration: u64) -> (timer: Timer)
        ensures
            timer.duration == duration,
            timer.elapsed == 0,
    {
        Timer { duration, elapsed: 0 }
    }

    /// The time on the timer after `delta` microseconds more: it does not
    /// run past the duration.
    pub open spec fn elapsed_after(self, delta: u64) -> u64 {
        if self.elapsed >= self.duration || delta >= self.duration - self.elapsed {
            self.duration
        } else {
            (self.elapsed + delta) as u64
        }
    }

    /// Whether the timer has reached its duration.
    pub open spec fn finished(&self) -> bool {
        self.elapsed >= self.duration
    }

    /// Advances the timer by `delta` microseconds.
    pub fn tick(&mut self, delta: u64)
        ensures
            final(self).duration == old(self).duration,
            final(self).elapsed == old(self).elapsed_after(delta),
    {
        if self.elapsed >= self.duration || delta >= self.duration - self.elapsed {
            self.elapsed = self.duration;
        } else {
            self.elapsed = self.elapsed + delta;
        }
    }

    /// Whether the timer has reached its duration.
    #[verifier::when_used_as_spec(finished)]
    pub fn is_finished(&self) -> (finished: bool)
        ensures
            finished == self.finished(),
    {
        self.elapsed >= self.duration
    }

    /// The part of the duration that is left, in thousandths, rounded down;
    /// nothing is left of a timer without duration.
    pub open spec fn remaining_thousandths(self) -> int {
        if self.elapsed >= self.duration {
            0
        } else {
            (self.duration - self.elapsed) * 1000 / (self.duration as int)
        }
    }
}

/// The car has collected a powerup and can use the boost: while the timer
/// runs, holding the boost key makes the boost active.
#[derive(Clone, Copy, PartialEq, Eq, Debug, Structural)]
pub struct NosBoostAvailable {
    /// Timer counting down the availability window.
    pub timer: Timer,
    /// Whether the boost is currently active (the boost key is held).
    pub active: bool,
}

impl NosBoostAvailable {
    /// A boost that is available for `duration` microseconds from now, and
    /// not active.
    pub fn new(duration: u64) -> (boost: NosBoostAvailable)
        ensures
            boost.timer.duration == duration,
            boost.timer.elapsed == 0,
            !boost.active,
    {
        NosBoostAvailable { timer: Timer::new(duration), active: false }
    }

    /// Returns the remaining fraction of the availability window in
    /// thousandths (1000 = full, 0 = empty).
    pub fn remaining_fraction(&self) -> (thousandths: u32)
        ensures
            thousandths == self.timer.remaining_thousandths(),
            thousandths <= 1000,
    {
        if self.timer.elapsed >= self.timer.duration {
            return 0;
        }
        let left: u128 = (self.timer.duration - self.timer.elapsed) as u128;
        let duration: u128 = self.timer.duration as u128;
        let thousandths: u128 = left * 1000 / duration;
        proof {
            vstd::arithmetic::div_mod::lemma_div_is_ordered(
                left as int * 1000,
                duration as int * 1000,
                duration as int,
            );
            vstd::arithmetic::div_mod::lemma_div_multiples_vanish(1000, duration as int);
        }
        thousandths as u32
    }
}

} // verus!
