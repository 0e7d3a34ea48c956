use vstd::prelude::*;
pub use crate::collision::world_to_local_2d;
use crate::collision::{is_point_in_rect, point_in_rect, LocalPoint, Rotation, Vec2, LOCAL_ONE, ROTATION_ONE};
use crate::road::components::{Direction, RoadSegmentType};
use crate::collision::lemma_product_bound;
use crate::constants::MAX_WORLD_COORDINATE;
use crate::road::constants::{ROAD_SEGMENT_LENGTH, ROAD_WIDTH};
use crate::road::layout::{lemma_walk_cell_bounded, walk_bounds, walk_cell, walk_direction, MAX_LAYOUT_LEN};

verus! {

/// The direction in which a segment of kind `segment_type` is left when it is
/// entered heading `entry_direction`.
pub open spec fn exit_direction(entry_direction: Direction, segment_type: RoadSegmentType) -> Direction {
    match segment_type {
        RoadSegmentType::Straight => entry_direction,
        RoadSegmentType::CornerLeft => match entry_direction {
            Direction::Up => Direction::Left,
            Direction::Left => Direction::Down,
            Direction::Down => Direction::Right,
            Direction::Right => Direction::Up,
        },
        RoadSegmentType::CornerRight => match entry_direction {
            Direction::Up => Direction::Right,
            Direction::Right => Direction::Down,
            Direction::Down => Direction::Left,
            Direction::Left => Direction::Up,
        },
    }
}

/// Given an entry direction and segment type, return the exit direction.
#[verifier::when_used_as_spec(exit_direction)]
pub fn get_exit_direction(entry_direction: Direction, segment_type: RoadSegmentType) -> (exit: Direction)
    ensures
        exit == exit_direction(entry_direction, segment_type),
{
    match segment_type {
        RoadSegmentType::Straight => entry_direction,
        RoadSegmentType::CornerLeft => match entry_direction {
            Direction::Up => Direction::Left,
            Direction::Left => Direction::Down,
            Direction::Down => Direction::Right,
            Direction::Right => Direction::Up,
        },
        RoadSegmentType::CornerRight => match entry_direction {
            Direction::Up => Direction::Right,
            Direction::Right => Direction::Down,
            Direction::Down => Direction::Left,
            Direction::Left => Direction::Up,
        },
    }
}

/// Whether a local point lies on a straight segment: in the rectangle of the
/// road's width and the segment's length around the origin.
pub open spec fn point_in_straight(local: (int, int)) -> bool {
    point_in_rect(local, ROAD_WIDTH as int / 2, ROAD_SEGMENT_LENGTH as int / 2)
}

/// Whether a local point lies on a corner segment: not farther from the
/// pivot than the road is wide, and at an angle between 45 and 135 degrees
/// from the x axis, both included. A point is at such an angle when it lies
/// above the pivot and not farther to either side than it lies above.
pub open spec fn point_in_corner(local: (int, int)) -> bool {
    let radius = ROAD_WIDTH as int * LOCAL_ONE as int;
    &&& local.0 * local.0 + local.1 * local.1 <= radius * radius
    &&& local.1 > 0
    &&& -local.1 <= local.0 <= local.1
}

/// Whether a local point lies on a segment of the given kind. Both kinds of
/// corner have the same shape: how the segment is turned tells them apart.
pub open spec fn point_in_segment(local: (int, int), segment_type: RoadSegmentType) -> bool {
    match segment_type {
        RoadSegmentType::Straight => point_in_straight(local),
        RoadSegmentType::CornerRight => point_in_corner(local),
        RoadSegmentType::CornerLeft => point_in_corner(local),
    }
}

/// Check if a point (in local space) is inside a straight road segment. The
/// straight road is a rectangle centered at the origin, as wide as the road
/// and as long as a segment.
pub fn is_point_in_straight(local_pos: LocalPoint) -> (inside: bool)
    ensures
        inside == point_in_straight(local_pos@),
{
    is_point_in_rect(local_pos, ROAD_WIDTH / 2, ROAD_SEGMENT_LENGTH / 2)
}

/// Check if a point (in local space) is inside a corner segment: a quarter
/// disc around the pivot, between 45 and 135 degrees.
pub fn is_point_in_corner(local_pos: LocalPoint) -> (inside: bool)
    ensures
        inside == point_in_corner(local_pos@),
{
    let radius: i128 = (ROAD_WIDTH as i128) * LOCAL_ONE;
    let x = local_pos.x;
    let y = local_pos.y;
    if x > radius || x < -radius || y > radius || y < -radius {
        proof {
            let xi = x as int;
            let yi = y as int;
            let r = radius as int;
            assert(xi * xi + yi * yi > r * r) by (nonlinear_arith)
                requires
                    r >= 0,
                    xi > r || xi < -r || yi > r || yi < -r,
            ;
        }
        return false;
    }
    proof {
        let r = radius as int;
        lemma_product_bound(x as int, x as int, r, r);
        lemma_product_bound(y as int, y as int, r, r);
        assert(r * r == 25_000_000_000_000_000_000_000_000int) by (nonlinear_arith)
            requires
                r == 5_000_000_000_000int,
        ;
    }
    if x * x + y * y > radius * radius {
        return false;
    }
    y > 0 && -y <= x && x <= y
}

/// Check if a point (in local space) is inside a right corner segment.
pub fn is_point_in_corner_right(local_pos: LocalPoint) -> (inside: bool)
    ensures
        inside == point_in_corner(local_pos@),
{
    is_point_in_corner(local_pos)
}

/// Check if a point (in local space) is inside a left corner segment. The
/// shape is that of a right corner.
pub fn is_point_in_corner_left(local_pos: LocalPoint) -> (inside: bool)
    ensures
        inside == point_in_corner(local_pos@),
{
    is_point_in_corner(local_pos)
}

/// Check if a point (in local space) is inside a road segment of the given
/// type.
pub fn is_point_in_segment(local_pos: LocalPoint, segment_type: RoadSegmentType) -> (inside: bool)
    ensures
        inside == point_in_segment(local_pos@, segment_type),
{
    match segment_type {
        RoadSegmentType::Straight => is_point_in_straight(local_pos),
        RoadSegmentType::CornerRight => is_point_in_corner_right(local_pos),
        RoadSegmentType::CornerLeft => is_point_in_corner_left(local_pos),
    }
}

/// The step of one cell in a direction.
pub open spec fn direction_vector(direction: Direction) -> (int, int) {
    match direction {
        Direction::Up => (0, 1),
        Direction::Down => (0, -1),
        Direction::Left => (-1, 0),
        Direction::Right => (1, 0),
    }
}

/// The unit vector of a direction.
pub fn get_direction_vector(direction: Direction) -> (unit: Vec2)
    ensures
        (unit.x as int, unit.y as int) == direction_vector(direction),
{
    match direction {
        Direction::Up => Vec2 { x: 0, y: 1 },
        Direction::Down => Vec2 { x: 0, y: -1 },
        Direction::Left => Vec2 { x: -1, y: 0 },
        Direction::Right => Vec2 { x: 1, y: 0 },
    }
}

/// Get position offset for the next segment based on current direction: one
/// segment length in that direction.
pub fn get_position_offset(direction: Direction) -> (offset: Vec2)
    ensures
        offset.x == direction_vector(direction).0 * ROAD_SEGMENT_LENGTH,
        offset.y == direction_vector(direction).1 * ROAD_SEGMENT_LENGTH,
{
    match direction {
        Direction::Up => Vec2 { x: 0, y: ROAD_SEGMENT_LENGTH },
        Direction::Down => Vec2 { x: 0, y: -ROAD_SEGMENT_LENGTH },
        Direction::Left => Vec2 { x: -ROAD_SEGMENT_LENGTH, y: 0 },
        Direction::Right => Vec2 { x: ROAD_SEGMENT_LENGTH, y: 0 },
    }
}

/// The rotation that turns the vector pointing up into the direction: none
/// for up, a quarter turn clockwise for right, a half turn for down, a quarter
/// turn counter-clockwise for left.
pub open spec fn rotation_of(direction: Direction) -> Rotation {
    Rotation {
        cos: (direction_vector(direction).1 * ROTATION_ONE) as i16,
        sin: (-direction_vector(direction).0 * ROTATION_ONE) as i16,
    }
}

/// Get the rotation of a segment or sprite based on direction.
#[verifier::when_used_as_spec(rotation_of)]
pub fn get_rotation(direction: Direction) -> (rotation: Rotation)
    ensures
        rotation == rotation_of(direction),
{
    match direction {
        Direction::Up => Rotation { cos: ROTATION_ONE, sin: 0 },
        Direction::Right => Rotation { cos: 0, sin: -ROTATION_ONE },
        Direction::Down => Rotation { cos: -ROTATION_ONE, sin: 0 },
        Direction::Left => Rotation { cos: 0, sin: ROTATION_ONE },
    }
}

/// The rotation turns the vector pointing up into the direction's vector.
pub proof fn lemma_rotation_points_along(direction: Direction)
    ensures
        rotation_of(direction).apply((0int, 1int)) == (
            direction_vector(direction).0 * ROTATION_ONE,
            direction_vector(direction).1 * ROTATION_ONE,
        ),
{
}

/// Compute the bounding box of a track's world-space positions: of the
/// starting point and of the position reached after each segment, one
/// segment length per step. Returns the corner with the smallest coordinates
/// and the corner with the largest. The road itself reaches half its width
/// farther on every side.
pub fn compute_track_bounds(starting_point: Vec2, layout: &Vec<RoadSegmentType>) -> (bounds: (Vec2, Vec2))
    requires
        layout@.len() <= MAX_LAYOUT_LEN,
        -MAX_WORLD_COORDINATE <= starting_point.x <= MAX_WORLD_COORDINATE,
        -MAX_WORLD_COORDINATE <= starting_point.y <= MAX_WORLD_COORDINATE,
    ensures
        bounds.0.x == starting_point.x + ROAD_SEGMENT_LENGTH * walk_bounds(
            layout@,
            layout@.len() as int,
        ).min_x,
        bounds.0.y == starting_point.y + ROAD_SEGMENT_LENGTH * walk_bounds(
            layout@,
            layout@.len() as int,
        ).min_y,
        bounds.1.x == starting_point.x + ROAD_SEGMENT_LENGTH * walk_bounds(
            layout@,
            layout@.len() as int,
        ).max_x,
        bounds.1.y == starting_point.y + ROAD_SEGMENT_LENGTH * walk_bounds(
            layout@,
            layout@.len() as int,
        ).max_y,
{
    let mut min = starting_point;
    let mut max = starting_point;
    let mut current_pos = starting_point;
    let mut current_dir = Direction::Up;
    let mut k: usize = 0;
    assert(ROAD_SEGMENT_LENGTH == 50_000);
    while k < layout.len()
        invariant
            k <= layout@.len() <= MAX_LAYOUT_LEN,
            -MAX_WORLD_COORDINATE <= starting_point.x <= MAX_WORLD_COORDINATE,
            -MAX_WORLD_COORDINATE <= starting_point.y <= MAX_WORLD_COORDINATE,
            current_dir == walk_direction(layout@, k as int),
            current_pos.x == starting_point.x + 50_000 * walk_cell(layout@, k as int).0,
            current_pos.y == starting_point.y + 50_000 * walk_cell(layout@, k as int).1,
            min.x == starting_point.x + 50_000 * walk_bounds(layout@, k as int).min_x,
            min.y == starting_point.y + 50_000 * walk_bounds(layout@, k as int).min_y,
            max.x == starting_point.x + 50_000 * walk_bounds(layout@, k as int).max_x,
            max.y == starting_point.y + 50_000 * walk_bounds(layout@, k as int).max_y,
        decreases layout@.len() - k,
    {
        proof {
            lemma_walk_cell_bounded(layout@, k as int);
            lemma_walk_cell_bounded(layout@, k as int + 1);
            assert(ROAD_SEGMENT_LENGTH == 50_000);
        }
        let offset = get_position_offset(current_dir);
        current_pos = Vec2 { x: current_pos.x + offset.x, y: current_pos.y + offset.y };
        if current_pos.x < min.x {
            min = Vec2 { x: current_pos.x, y: min.y };
        }
        if current_pos.y < min.y {
            min = Vec2 { x: min.x, y: current_pos.y };
        }
        if current_pos.x > max.x {
            max = Vec2 { x: current_pos.x, y: max.y };
        }
        if current_pos.y > max.y {
            max = Vec2 { x: max.x, y: current_pos.y };
        }
        current_dir = get_exit_direction(current_dir, layout[k]);
        k = k + 1;
    }
    (min, max)
}

} // verus!
