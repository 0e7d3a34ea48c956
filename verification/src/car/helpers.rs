use vstd::prelude::*;

use crate::collision::{get_rect_corners, local_corner, Transform, WorldPoint, ROTATION_ONE};

verus! {

/// Half the width of the car's collision box.
pub const CAR_HALF_WIDTH: i32 = 5_000;

/// Half the length of the car's collision box.
pub const CAR_HALF_HEIGHT: i32 = 9_000;

/// The corner with index `index` of the car, in sub-units of the world:
/// front-left, front-right, back-right, back-left.
pub open spec fn car_corner(transform: Transform, index: int) -> (int, int) {
    transform.local_to_world(local_corner(index, CAR_HALF_WIDTH as int, CAR_HALF_HEIGHT as int))
}

/// Get the four corners of the car in world space based on its transform.
/// Returns corners in order: front-left, front-right, back-right, back-left.
pub fn get_car_corners(transform: &Transform) -> (corners: [WorldPoint; 4])
    ensures
        forall|i: int| 0 <= i < 4 ==> (#[trigger] corners[i])@ == car_corner(*transform, i),
        corners[0].x + corners[1].x + corners[2].x + corners[3].x == 4 * (transform.translation.x
            * ROTATION_ONE),
        corners[0].y + corners[1].y + corners[2].y + corners[3].y == 4 * (transform.translation.y
            * ROTATION_ONE),
{
    get_rect_corners(transform, CAR_HALF_WIDTH, CAR_HALF_HEIGHT)
}

} // verus!
