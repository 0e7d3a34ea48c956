//! Powerups on the track.

use vstd::prelude::*;
use crate::car::components::{NosBoostAvailable, Timer};
use crate::car::constants::NOS_AVAILABILITY_DURATION;
use crate::car::helpers::{CAR_HALF_HEIGHT, CAR_HALF_WIDTH};
use crate::collision::{check_obb_collision, obb_collision, Transform};

verus! {

/// Size of a powerup, in world units.
pub const NOS_SIZE: i32 = 10_000;

/// Half the size of a powerup (for collision detection).
pub const NOS_HALF_SIZE: i32 = 5_000;

/// Whether the car collides with a powerup.
pub open spec fn car_hits_powerup(car: Transform, powerup: Transform) -> bool {
    obb_collision(
        car,
        CAR_HALF_WIDTH as int,
        CAR_HALF_HEIGHT as int,
        powerup,
        NOS_HALF_SIZE as int,
        NOS_HALF_SIZE as int,
    )
}

/// The boost of a car that has just collected a powerup: available for the
/// whole of its time, and not active.
pub open spec fn fresh_boost() -> NosBoostAvailable {
    NosBoostAvailable { timer: Timer { duration: NOS_AVAILABILITY_DURATION, elapsed: 0 }, active: false }
}

/// The boost of the car after the pickups: a fresh one if a powerup was
/// collected, whatever the car had; else what the car had.
pub open spec fn boost_after_pickup(boost: Option<NosBoostAvailable>, collected: Seq<bool>) -> Option<
    NosBoostAvailable,
> {
    if exists|i: int| 0 <= i < collected.len() && #[trigger] collected[i] {
        Some(fresh_boost())
    } else {
        boost
    }
}

/// Checks the car against the powerups, as rotated rectangles. Says of each
/// powerup whether the car has collected it; a powerup that is collected is
/// to be removed. A car that has collected one has a fresh boost afterwards.
pub fn check_powerup_collision(
    car_transform: &Transform,
    powerups: &Vec<Transform>,
    boost: &mut Option<NosBoostAvailable>,
) -> (collected: Vec<bool>)
    ensures
        collected@.len() == powerups@.len(),
        forall|i: int|
            0 <= i < powerups@.len() ==> #[trigger] collected@[i] == car_hits_powerup(
                *car_transform,
                powerups@[i],
            ),
        *final(boost) == boost_after_pickup(*old(boost), collected@),
{
    let mut collected: Vec<bool> = Vec::new();
    let mut i: usize = 0;
    while i < powerups.len()
        invariant
            i <= powerups@.len(),
            collected@.len() == i,
            forall|k: int|
                0 <= k < i ==> #[trigger] collected@[k] == car_hits_powerup(*car_transform, powerups@[k]),
            *boost == boost_after_pickup(*old(boost), collected@),
        decreases powerups@.len() - i,
    {
        let hit = check_obb_collision(
            car_transform,
            CAR_HALF_WIDTH,
            CAR_HALF_HEIGHT,
            &powerups[i],
            NOS_HALF_SIZE,
            NOS_HALF_SIZE,
        );
        let ghost before = collected@;
        collected.push(hit);
        if hit {
            *boost = Some(NosBoostAvailable::new(NOS_AVAILABILITY_DURATION));
        }
        proof {
            assert(collected@[i as int] == hit);
            assert(forall|k: int| 0 <= k < i ==> collected@[k] == before[k]);
            if !hit {
                assert(boost_after_pickup(*old(boost), collected@) == boost_after_pickup(*old(boost), before))
                    by {
                    if exists|k: int| 0 <= k < collected@.len() && #[trigger] collected@[k] {
                        let k = choose|k: int| 0 <= k < collected@.len() && #[trigger] collected@[k];
                        assert(before[k]);
                    }
                    if exists|k: int| 0 <= k < before.len() && #[trigger] before[k] {
                        let k = choose|k: int| 0 <= k < before.len() && #[trigger] before[k];
                        assert(collected@[k]);
                    }
                }
            }
        }
        i = i + 1;
    }
    collected
}

} // verus!
