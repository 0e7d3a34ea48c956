use vstd::prelude::*;
use crate::car::constants::CAR_HEIGHT;
use crate::car::helpers::{car_corner, get_car_corners};
use crate::collision::{
    lemma_product_bound, local_corner, world_to_local_2d, Rotation, Transform, Vec2, WorldPoint,
};
use crate::constants::{
    BOTTOM_BOUNDARY, LEFT_BOUNDARY, MAX_WORLD_COORDINATE, RIGHT_BOUNDARY, TOP_BOUNDARY,
};
use crate::road::components::{
    Direction, FinishLine, RoadSegment, RoadSegmentType, StartLine, Track,
};
use crate::road::constants::{ROAD_SEGMENT_LENGTH, ROAD_WIDTH};
use crate::road::helpers::{
    direction_vector, exit_direction, get_direction_vector, get_exit_direction, get_position_offset,
    get_rotation, is_point_in_segment, point_in_segment, rotation_of,
};
use crate::road::layout::{
    layout_verdict, lemma_walk_bounds_are_tight, lemma_walk_cell_bounded, validate_layout,
    walk_bounds, walk_cell, walk_direction, InvalidTrack, MAX_LAYOUT_LEN,
};
use crate::road::search::in_bounds;
use crate::road::track_generator::{
    centered_starting_point, grid_half_height_spec, grid_half_width_spec, is_generated_layout,
    lemma_grid_size, GeneratedTrack,
};

verus! {

/// The cosine and sine of an eighth of a turn, times `ROTATION_ONE`.
pub const ROTATION_EIGHTH: i16 = 7_071;

/// The farthest from the origin that a point of entry may lie, so that the
/// segment entered there and the next point of entry have coordinates that
/// fit `i32`.
pub const MAX_ENTRY_COORDINATE: i32 = 2_100_000_000;

/// Places the start line: one car length ahead of the starting point.
pub fn spawn_start_line(position: Vec2, direction: Direction) -> (line: StartLine)
    requires
        position.y <= MAX_WORLD_COORDINATE,
    ensures
        line.position.x == position.x,
        line.position.y == position.y + CAR_HEIGHT,
        line.direction == direction,
{
    StartLine { position: Vec2 { x: position.x, y: position.y + CAR_HEIGHT }, direction }
}

/// Places the finish line at the given position.
pub fn spawn_finish_line(position: Vec2, direction: Direction) -> (line: FinishLine)
    ensures
        line.position == position,
        line.direction == direction,
{
    FinishLine { position, direction }
}

/// The centre of the cell `cell` of a walk whose first segment has its centre
/// on `starting_point`.
pub open spec fn cell_centre(starting_point: Vec2, cell: (int, int)) -> (int, int) {
    (
        starting_point.x + ROAD_SEGMENT_LENGTH * cell.0,
        starting_point.y + ROAD_SEGMENT_LENGTH * (cell.1 - 1),
    )
}

/// The point through which the walk enters segment `k`: the middle of the
/// edge between the cell before it and its own.
pub open spec fn segment_entry_point(
    starting_point: Vec2,
    layout: Seq<RoadSegmentType>,
    k: int,
) -> (int, int) {
    let centre = cell_centre(starting_point, walk_cell(layout, k));
    let forward = direction_vector(walk_direction(layout, k));
    (
        centre.0 + forward.0 * (ROAD_SEGMENT_LENGTH as int / 2),
        centre.1 + forward.1 * (ROAD_SEGMENT_LENGTH as int / 2),
    )
}

/// How a corner is turned: the rotation that turns the vector pointing up
/// onto the diagonal between the direction of entry and the reverse of the
/// direction of exit, an eighth of a turn from the rotation of the direction
/// of entry.
pub open spec fn corner_rotation(entry: Direction, segment_type: RoadSegmentType) -> Rotation {
    let forward = direction_vector(entry);
    let out = direction_vector(exit_direction(entry, segment_type));
    Rotation {
        cos: ((forward.1 - out.1) * ROTATION_EIGHTH) as i16,
        sin: ((out.0 - forward.0) * ROTATION_EIGHTH) as i16,
    }
}

/// Segment `k` of a track as it is placed in the world. A straight segment
/// has its centre in the middle of its cell and is turned as its direction; a
/// corner has its pivot on the corner of its cell that lies on the edge of
/// entry, to the side of the exit.
pub open spec fn placed_segment(
    starting_point: Vec2,
    layout: Seq<RoadSegmentType>,
    k: int,
) -> RoadSegment {
    let entry = walk_direction(layout, k);
    let segment_type = layout[k];
    let entry_point = segment_entry_point(starting_point, layout, k);
    let forward = direction_vector(entry);
    let out = direction_vector(exit_direction(entry, segment_type));
    match segment_type {
        RoadSegmentType::Straight => RoadSegment {
            segment_type,
            direction: entry,
            transform: Transform {
                translation: Vec2 {
                    x: (entry_point.0 + forward.0 * (ROAD_SEGMENT_LENGTH as int / 2)) as i32,
                    y: (entry_point.1 + forward.1 * (ROAD_SEGMENT_LENGTH as int / 2)) as i32,
                },
                rotation: rotation_of(entry),
            },
            visited: false,
        },
        _ => RoadSegment {
            segment_type,
            direction: entry,
            transform: Transform {
                translation: Vec2 {
                    x: (entry_point.0 + out.0 * (ROAD_WIDTH as int / 2)) as i32,
                    y: (entry_point.1 + out.1 * (ROAD_WIDTH as int / 2)) as i32,
                },
                rotation: corner_rotation(entry, segment_type),
            },
            visited: false,
        },
    }
}

/// Places one straight segment that is entered at `current_endpoint`.
/// Returns the segment and the point where the next segment is entered.
pub fn spawn_straight_road(
    current_endpoint: Vec2,
    current_direction: Direction,
    segment_type: RoadSegmentType,
) -> (placed: (RoadSegment, Vec2))
    requires
        -MAX_ENTRY_COORDINATE <= current_endpoint.x <= MAX_ENTRY_COORDINATE,
        -MAX_ENTRY_COORDINATE <= current_endpoint.y <= MAX_ENTRY_COORDINATE,
    ensures
        placed.0.segment_type == segment_type,
        placed.0.direction == current_direction,
        !placed.0.visited,
        placed.0.transform.rotation == rotation_of(current_direction),
        placed.0.transform.translation.x == current_endpoint.x + direction_vector(current_direction).0
            * (ROAD_SEGMENT_LENGTH as int / 2),
        placed.0.transform.translation.y == current_endpoint.y + direction_vector(current_direction).1
            * (ROAD_SEGMENT_LENGTH as int / 2),
        placed.1.x == current_endpoint.x + direction_vector(current_direction).0 * ROAD_SEGMENT_LENGTH,
        placed.1.y == current_endpoint.y + direction_vector(current_direction).1 * ROAD_SEGMENT_LENGTH,
{
    let offset = get_position_offset(current_direction);
    let center = Vec2 { x: current_endpoint.x + offset.x / 2, y: current_endpoint.y + offset.y / 2 };
    let rotation = get_rotation(current_direction);
    let segment = RoadSegment {
        segment_type,
        direction: current_direction,
        transform: Transform { translation: center, rotation },
        visited: false,
    };
    (segment, Vec2 { x: current_endpoint.x + offset.x, y: current_endpoint.y + offset.y })
}

/// Places one corner segment that is entered at `current_endpoint`. Returns
/// the segment, the point where the next segment is entered, and the
/// direction in which it is.
pub fn spawn_corner_road(
    current_endpoint: Vec2,
    current_direction: Direction,
    segment_type: RoadSegmentType,
) -> (placed: (RoadSegment, Vec2, Direction))
    requires
        segment_type != RoadSegmentType::Straight,
        -MAX_ENTRY_COORDINATE <= current_endpoint.x <= MAX_ENTRY_COORDINATE,
        -MAX_ENTRY_COORDINATE <= current_endpoint.y <= MAX_ENTRY_COORDINATE,
    ensures
        placed.0.segment_type == segment_type,
        placed.0.direction == current_direction,
        !placed.0.visited,
        placed.0.transform.rotation == corner_rotation(current_direction, segment_type),
        placed.0.transform.translation.x == current_endpoint.x + direction_vector(placed.2).0 * (
        ROAD_WIDTH as int / 2),
        placed.0.transform.translation.y == current_endpoint.y + direction_vector(placed.2).1 * (
        ROAD_WIDTH as int / 2),
        placed.1.x == placed.0.transform.translation.x + direction_vector(current_direction).0 * (
        ROAD_WIDTH as int / 2),
        placed.1.y == placed.0.transform.translation.y + direction_vector(current_direction).1 * (
        ROAD_WIDTH as int / 2),
        placed.2 == exit_direction(current_direction, segment_type),
{
    let exit_direction = get_exit_direction(current_direction, segment_type);
    let exit_vec = get_direction_vector(exit_direction);
    let entry_vec = get_direction_vector(current_direction);

    // The pivot of the corner lies half a road width from the point of entry,
    // to the side of the exit.
    let pivot = Vec2 {
        x: current_endpoint.x + exit_vec.x * (ROAD_WIDTH / 2),
        y: current_endpoint.y + exit_vec.y * (ROAD_WIDTH / 2),
    };
    let eighth: i32 = 7_071;
    let rotation = Rotation {
        cos: ((entry_vec.y - exit_vec.y) * eighth) as i16,
        sin: ((exit_vec.x - entry_vec.x) * eighth) as i16,
    };
    let segment = RoadSegment {
        segment_type,
        direction: current_direction,
        transform: Transform { translation: pivot, rotation },
        visited: false,
    };
    let new_endpoint = Vec2 {
        x: pivot.x + entry_vec.x * (ROAD_WIDTH / 2),
        y: pivot.y + entry_vec.y * (ROAD_WIDTH / 2),
    };
    (segment, new_endpoint, exit_direction)
}

/// Places the segments of a track in the world, one after the other from the
/// starting point, heading up. A track whose layout is no closed loop, or is
/// too long, is refused, and nothing is placed.
pub fn spawn_track(track: &Track) -> (placed: Result<Vec<RoadSegment>, InvalidTrack>)
    requires
        -MAX_WORLD_COORDINATE <= track.starting_point.x <= MAX_WORLD_COORDINATE,
        -MAX_WORLD_COORDINATE <= track.starting_point.y <= MAX_WORLD_COORDINATE,
    ensures
        placed is Ok <==> track.is_valid(),
        placed matches Err(error) ==> layout_verdict(track.layout@) == Err::<(), InvalidTrack>(error),
        placed matches Ok(segments) ==> {
            &&& segments@.len() == track.layout@.len()
            &&& forall|k: int|
                0 <= k < segments@.len() ==> #[trigger] segments@[k] == placed_segment(
                    track.starting_point,
                    track.layout@,
                    k,
                )
        },
{
    match validate_layout(&track.layout) {
        Ok(()) => {},
        Err(error) => {
            return Err(error);
        },
    }
    let mut segments: Vec<RoadSegment> = Vec::new();
    let mut current_endpoint = Vec2 {
        x: track.starting_point.x,
        y: track.starting_point.y - ROAD_SEGMENT_LENGTH / 2,
    };
    let mut current_direction = Direction::Up;
    let mut k: usize = 0;
    proof {
        assert(ROAD_SEGMENT_LENGTH == 50_000 && ROAD_WIDTH == 50_000);
        let forward = direction_vector(walk_direction(track.layout@, 0));
        assert(forward.0 * 25_000 == 0 && forward.1 * 25_000 == 25_000) by (nonlinear_arith)
            requires
                forward.0 == 0,
                forward.1 == 1,
        ;
        assert(cell_centre(track.starting_point, walk_cell(track.layout@, 0)) == (
            track.starting_point.x as int,
            track.starting_point.y - 50_000,
        ));
    }
    while k < track.layout.len()
        invariant
            k <= track.layout@.len() <= MAX_LAYOUT_LEN,
            -MAX_WORLD_COORDINATE <= track.starting_point.x <= MAX_WORLD_COORDINATE,
            -MAX_WORLD_COORDINATE <= track.starting_point.y <= MAX_WORLD_COORDINATE,
            segments@.len() == k,
            current_direction == walk_direction(track.layout@, k as int),
            (current_endpoint.x as int, current_endpoint.y as int) == segment_entry_point(
                track.starting_point,
                track.layout@,
                k as int,
            ),
            forall|j: int|
                0 <= j < k ==> #[trigger] segments@[j] == placed_segment(
                    track.starting_point,
                    track.layout@,
                    j,
                ),
        decreases track.layout@.len() - k,
    {
        proof {
            lemma_walk_cell_bounded(track.layout@, k as int);
            lemma_walk_cell_bounded(track.layout@, k as int + 1);
            assert(ROAD_SEGMENT_LENGTH == 50_000 && ROAD_WIDTH == 50_000);
            let cell = walk_cell(track.layout@, k as int);
            lemma_product_bound(ROAD_SEGMENT_LENGTH as int, cell.0, 50_000, k as int);
            lemma_product_bound(ROAD_SEGMENT_LENGTH as int, cell.1 - 1, 50_000, k as int + 1);
        }
        let segment_type = track.layout[k];
        match segment_type {
            RoadSegmentType::Straight => {
                let (segment, new_endpoint) = spawn_straight_road(
                    current_endpoint,
                    current_direction,
                    segment_type,
                );
                segments.push(segment);
                current_endpoint = new_endpoint;
            },
            RoadSegmentType::CornerLeft | RoadSegmentType::CornerRight => {
                let (segment, new_endpoint, new_direction) = spawn_corner_road(
                    current_endpoint,
                    current_direction,
                    segment_type,
                );
                segments.push(segment);
                current_endpoint = new_endpoint;
                current_direction = new_direction;
            },
        }
        k = k + 1;
    }
    Ok(segments)
}

/// Whether corner `index` of the car lies on a segment.
pub open spec fn corner_on_segment(car: Transform, index: int, segment: RoadSegment) -> bool {
    point_in_segment(segment.transform.world_to_local(car_corner(car, index)), segment.segment_type)
}

/// Whether corner `index` of the car lies on some segment.
pub open spec fn corner_on_road(car: Transform, index: int, segments: Seq<RoadSegment>) -> bool {
    exists|j: int| 0 <= j < segments.len() && corner_on_segment(car, index, #[trigger] segments[j])
}

/// The car is on the road when each of its four corners lies on some
/// segment.
pub open spec fn car_on_road(car: Transform, segments: Seq<RoadSegment>) -> bool {
    forall|i: int| 0 <= i < 4 ==> #[trigger] corner_on_road(car, i, segments)
}

/// The car touches a segment when one of its four corners lies on it.
pub open spec fn car_touches(car: Transform, segment: RoadSegment) -> bool {
    exists|i: int| 0 <= i < 4 && #[trigger] corner_on_segment(car, i, segment)
}

/// Whether the car is on the road: for each corner of the car, whether it is
/// on any road segment.
pub fn check_car_on_road(car_transform: &Transform, segments: &Vec<RoadSegment>) -> (on_road: bool)
    ensures
        on_road == car_on_road(*car_transform, segments@),
{
    let car_corners = get_car_corners(car_transform);
    let mut i: usize = 0;
    while i < 4
        invariant
            i <= 4,
            forall|k: int| 0 <= k < 4 ==> (#[trigger] car_corners[k])@ == car_corner(*car_transform, k),
            forall|k: int| 0 <= k < i ==> #[trigger] corner_on_road(*car_transform, k, segments@),
        decreases 4 - i,
    {
        let mut corner_is_on_road = false;
        let mut j: usize = 0;
        while j < segments.len() && !corner_is_on_road
            invariant
                i < 4,
                j <= segments@.len(),
                car_corners[i as int]@ == car_corner(*car_transform, i as int),
                corner_is_on_road ==> corner_on_road(*car_transform, i as int, segments@),
                !corner_is_on_road ==> forall|k: int|
                    0 <= k < j ==> !corner_on_segment(*car_transform, i as int, #[trigger] segments@[k]),
            decreases segments@.len() - j + if corner_is_on_road { 0int } else { 1int },
        {
            let local_corner = world_to_local_2d(&segments[j].transform, car_corners[i]);
            if is_point_in_segment(local_corner, segments[j].segment_type) {
                assert(corner_on_segment(*car_transform, i as int, segments@[j as int]));
                corner_is_on_road = true;
            } else {
                j = j + 1;
            }
        }
        // If any corner is off the road, the car is off the road.
        if !corner_is_on_road {
            assert(!corner_on_road(*car_transform, i as int, segments@));
            return false;
        }
        i = i + 1;
    }
    true
}

/// Whether any corner of the car lies on the segment.
pub fn car_touches_segment(car_corners: &[WorldPoint; 4], segment: &RoadSegment) -> (touches:
    bool)
    ensures
        touches == (exists|i: int|
            0 <= i < 4 && point_in_segment(
                segment.transform.world_to_local((#[trigger] car_corners[i])@),
                segment.segment_type,
            )),
{
    let mut i: usize = 0;
    while i < 4
        invariant
            i <= 4,
            forall|k: int|
                0 <= k < i ==> !point_in_segment(
                    segment.transform.world_to_local((#[trigger] car_corners[k])@),
                    segment.segment_type,
                ),
        decreases 4 - i,
    {
        let local_corner = world_to_local_2d(&segment.transform, car_corners[i]);
        if is_point_in_segment(local_corner, segment.segment_type) {
            return true;
        }
        i = i + 1;
    }
    false
}

/// Marks road segments as visited when the car touches them. A segment is
/// marked as soon as any corner of the car is on it, and a segment that is
/// marked stays marked.
pub fn update_segment_visited_status(car_transform: &Transform, segments: &mut Vec<RoadSegment>)
    ensures
        final(segments)@.len() == old(segments)@.len(),
        forall|j: int|
            0 <= j < old(segments)@.len() ==> (#[trigger] final(segments)@[j]).visited == (old(segments)@[j].visited || car_touches(*car_transform, old(segments)@[j])),
        forall|j: int|
            0 <= j < old(segments)@.len() ==> (#[trigger] final(segments)@[j]).segment_type == old(segments)@[j].segment_type && final(segments)@[j].direction == old(segments)@[j].direction && final(segments)@[j].transform == old(segments)@[j].transform,
        forall|j: int|
            0 <= j < old(segments)@.len() && old(segments)@[j].visited ==> (#[trigger] final(segments)@[j]).visited,
{
    let car_corners = get_car_corners(car_transform);
    let mut j: usize = 0;
    while j < segments.len()
        invariant
            j <= segments@.len(),
            segments@.len() == old(segments)@.len(),
            forall|k: int| 0 <= k < 4 ==> (#[trigger] car_corners[k])@ == car_corner(*car_transform, k),
            forall|k: int| j <= k < segments@.len() ==> #[trigger] segments@[k] == old(segments)@[k],
            forall|k: int|
                0 <= k < j ==> (#[trigger] segments@[k]).visited == (old(segments)@[k].visited
                    || car_touches(*car_transform, old(segments)@[k])),
            forall|k: int|
                0 <= k < segments@.len() ==> (#[trigger] segments@[k]).segment_type == old(segments)@[k].segment_type && segments@[k].direction == old(segments)@[k].direction
                    && segments@[k].transform == old(segments)@[k].transform,
        decreases segments@.len() - j,
    {
        let segment = segments[j];
        proof {
            if car_touches(*car_transform, segment) {
                let i = choose|i: int| 0 <= i < 4 && #[trigger] corner_on_segment(*car_transform, i, segment);
                assert(car_corners[i]@ == car_corner(*car_transform, i));
            }
        }
        if !segment.visited {
            let touches = car_touches_segment(&car_corners, &segment);
            proof {
                if touches {
                    let i = choose|i: int|
                        0 <= i < 4 && point_in_segment(
                            segment.transform.world_to_local((#[trigger] car_corners[i])@),
                            segment.segment_type,
                        );
                    assert(corner_on_segment(*car_transform, i, segment));
                }
            }
            if touches {
                segments.set(
                    j,
                    RoadSegment {
                        segment_type: segment.segment_type,
                        direction: segment.direction,
                        transform: segment.transform,
                        visited: true,
                    },
                );
            }
        }
        j = j + 1;
    }
}

/// Whether every segment has been visited.
pub open spec fn all_visited(segments: Seq<RoadSegment>) -> bool {
    forall|j: int| 0 <= j < segments.len() ==> (#[trigger] segments[j]).visited
}

/// Whether no segment remains unvisited.
pub fn all_segments_visited(segments: &Vec<RoadSegment>) -> (all: bool)
    ensures
        all == all_visited(segments@),
{
    let mut j: usize = 0;
    while j < segments.len()
        invariant
            j <= segments@.len(),
            forall|k: int| 0 <= k < j ==> (#[trigger] segments@[k]).visited,
        decreases segments@.len() - j,
    {
        if !segments[j].visited {
            return false;
        }
        j = j + 1;
    }
    true
}

/// A car that stands on the starting point of a track, not turned, is on the
/// road, if the track starts with a straight segment: all of the car lies on
/// that segment.
pub proof fn lemma_car_starts_on_the_road(track: Track, segments: Seq<RoadSegment>)
    requires
        track.layout@.len() > 0,
        track.layout@[0] == RoadSegmentType::Straight,
        -MAX_WORLD_COORDINATE <= track.starting_point.x <= MAX_WORLD_COORDINATE,
        -MAX_WORLD_COORDINATE <= track.starting_point.y <= MAX_WORLD_COORDINATE,
        segments.len() > 0,
        segments[0] == placed_segment(track.starting_point, track.layout@, 0),
    ensures
        car_on_road(
            Transform { translation: track.starting_point, rotation: Rotation { cos: 10_000, sin: 0 } },
            segments,
        ),
{
    let car = Transform { translation: track.starting_point, rotation: Rotation { cos: 10_000, sin: 0 } };
    let first = segments[0];
    let forward = direction_vector(walk_direction(track.layout@, 0));
    assert(ROAD_SEGMENT_LENGTH == 50_000 && ROAD_WIDTH == 50_000);
    assert(forward.0 * 25_000 == 0 && forward.1 * 25_000 == 25_000) by (nonlinear_arith)
        requires
            forward.0 == 0,
            forward.1 == 1,
    ;
    assert(first.transform.translation == track.starting_point);
    assert forall|i: int| 0 <= i < 4 implies #[trigger] corner_on_road(car, i, segments) by {
        let x = track.starting_point.x as int;
        let y = track.starting_point.y as int;
        let lx = local_corner(i, 5_000, 9_000).0;
        let ly = local_corner(i, 5_000, 9_000).1;
        let local = first.transform.world_to_local(car_corner(car, i));
        assert(x * 10_000 + (10_000 * lx - 0 * ly) - x * 10_000 == 10_000 * lx) by (nonlinear_arith);
        assert(y * 10_000 + (0 * lx + 10_000 * ly) - y * 10_000 == 10_000 * ly) by (nonlinear_arith);
        assert(10_000 * (10_000 * lx) + 0 * (10_000 * ly) == 100_000_000 * lx) by (nonlinear_arith);
        assert(10_000 * (10_000 * ly) - 0 * (10_000 * lx) == 100_000_000 * ly) by (nonlinear_arith);
        assert(local == (100_000_000 * lx, 100_000_000 * ly));
        assert(corner_on_segment(car, i, segments[0]));
    }
}

/// A generated track lies within the walls of the world: the cell of each of
/// its segments does, when the track is placed from its starting point.
pub proof fn lemma_generated_track_lies_in_the_world(
    track: GeneratedTrack,
    min_segments: int,
    max_segments: int,
    k: int,
)
    requires
        is_generated_layout(
            track.layout@,
            min_segments,
            max_segments,
            grid_half_width_spec(),
            grid_half_height_spec(),
        ),
        track.is_finalized(),
        0 <= k < track.layout@.len(),
    ensures
        ({
            let centre = cell_centre(track.starting_point, walk_cell(track.layout@, k + 1));
            &&& LEFT_BOUNDARY <= centre.0 - 25_000
            &&& centre.0 + 25_000 <= RIGHT_BOUNDARY
            &&& BOTTOM_BOUNDARY <= centre.1 - 25_000
            &&& centre.1 + 25_000 <= TOP_BOUNDARY
        }),
{
    let layout = track.layout@;
    let n = layout.len() as int;
    let bounds = walk_bounds(layout, n);
    let cell = walk_cell(layout, k + 1);
    lemma_grid_size();
    lemma_walk_bounds_are_tight(layout, n);
    assert(ROAD_SEGMENT_LENGTH == 50_000);
    let i0 = choose|i: int| 0 <= i <= n && (#[trigger] walk_cell(layout, i)).0 == bounds.min_x;
    let i1 = choose|i: int| 0 <= i <= n && (#[trigger] walk_cell(layout, i)).0 == bounds.max_x;
    let i2 = choose|i: int| 0 <= i <= n && (#[trigger] walk_cell(layout, i)).1 == bounds.min_y;
    let i3 = choose|i: int| 0 <= i <= n && (#[trigger] walk_cell(layout, i)).1 == bounds.max_y;
    assert(in_bounds(walk_cell(layout, i0), 11, 6));
    assert(in_bounds(walk_cell(layout, i1), 11, 6));
    assert(in_bounds(walk_cell(layout, i2), 11, 6));
    assert(in_bounds(walk_cell(layout, i3), 11, 6));
    assert(bounds.min_x <= cell.0 <= bounds.max_x);
    assert(bounds.min_y <= cell.1 <= bounds.max_y);
    let start = centered_starting_point(layout);
    assert(ROAD_SEGMENT_LENGTH as int / 2 == 25_000);
    assert(start.0 == -(bounds.min_x + bounds.max_x) * 25_000);
    assert(start.1 == -(bounds.min_y + bounds.max_y) * 25_000);
    assert(-(bounds.min_x + bounds.max_x) * 25_000 == -25_000 * bounds.min_x - 25_000 * bounds.max_x)
        by (nonlinear_arith);
    assert(-(bounds.min_y + bounds.max_y) * 25_000 == -25_000 * bounds.min_y - 25_000 * bounds.max_y)
        by (nonlinear_arith);
    assert(ROAD_SEGMENT_LENGTH * cell.0 == 50_000 * cell.0);
    assert(ROAD_SEGMENT_LENGTH * (cell.1 - 1) == 50_000 * cell.1 - 50_000) by (nonlinear_arith)
        requires
            ROAD_SEGMENT_LENGTH == 50_000,
    ;
}

} // verus!
