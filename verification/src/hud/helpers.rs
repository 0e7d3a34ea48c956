use vstd::prelude::*;
use crate::road::components::Direction;

verus! {

/// Horizontal tolerance for detecting line crossing (half the road width).
pub const LINE_X_TOLERANCE: i32 = 25_000;

/// Whether the car is less than the tolerance to the side of a line.
pub open spec fn within_line_x_bounds(car_x: int, line_x: int) -> bool {
    -LINE_X_TOLERANCE < car_x - line_x < LINE_X_TOLERANCE
}

/// Check if the car is within the horizontal bounds of a line.
pub fn is_within_line_x_bounds(car_x: i32, line_x: i32) -> (within: bool)
    ensures
        within == within_line_x_bounds(car_x as int, line_x as int),
{
    let distance: i64 = car_x as i64 - line_x as i64;
    -(LINE_X_TOLERANCE as i64) < distance && distance < LINE_X_TOLERANCE as i64
}

/// Whether a move from `last_y` to `car_y` crosses the line at `line_y` in
/// the given direction: from the line or below it to above it for up, from
/// the line or above it to below it for down. Lines are not crossed sideways.
pub open spec fn crossed_line(car_y: int, last_y: int, line_y: int, direction: Direction) -> bool {
    match direction {
        Direction::Up => last_y <= line_y < car_y,
        Direction::Down => last_y >= line_y > car_y,
        Direction::Left => false,
        Direction::Right => false,
    }
}

/// Check if the car has crossed a line in the specified direction: whether it
/// was on one side of the line last frame and is on the other side now.
pub fn has_crossed_line(car_y: i32, last_y: i32, line_y: i32, direction: Direction) -> (crossed: bool)
    ensures
        crossed == crossed_line(car_y as int, last_y as int, line_y as int, direction),
{
    match direction {
        Direction::Up => last_y <= line_y && car_y > line_y,
        Direction::Down => last_y >= line_y && car_y < line_y,
        Direction::Left | Direction::Right => false,
    }
}

} // verus!
