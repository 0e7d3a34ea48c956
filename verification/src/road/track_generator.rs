//! Random track generation using a self-avoiding walk with backtracking.

use rand_chacha::ChaCha8Rng;
use std::collections::hash_map::DefaultHasher;
use std::hash::Hasher;
use vstd::bytes::{spec_u64_to_le_bytes, u64_to_le_bytes};
use vstd::prelude::*;
use vstd::std_specs::hash::DefaultHasherAdditionalSpecFns;
use crate::collision::Vec2;
use crate::constants::{UNITS_PER_PIXEL, WINDOW_HEIGHT, WINDOW_WIDTH};
use crate::road::cell_set::CellSet;
use crate::road::components::{Direction, GridPos, RoadSegmentType, Track};
use crate::road::constants::ROAD_SEGMENT_LENGTH;
use crate::road::helpers::get_exit_direction;
use crate::road::layout::{
    get_next_grid_position, is_closed_loop, lemma_walk_cell_bounded, walk_bounds, walk_cell,
    walk_direction, MAX_LAYOUT_LEN,
};
use crate::road::rng::{random_range, random_ratio, rng_from_seed};
use crate::road::search::{
    closing_segment, has_adjacent_cell, in_bounds, lemma_search_close, lemma_search_extend,
    lemma_search_retract, lemma_search_start, lemma_walk_drop_last, lemma_walk_push,
    lemma_walk_start, max_int, move_is_allowed, neighbour_allows_closing, neighbour_blocks,
    roads_keep_apart, search_invariant, walk_within_bounds,
};

verus! {

/// Minimum segments required for a valid closed loop (a square).
pub const MIN_VALID_SEGMENTS: usize = 4;

/// The difficulty is counted in thousandths: this is difficulty one.
pub const DIFFICULTY_ONE: i32 = 1000;

/// Cells kept free between the grid and the edge of the window.
pub const GRID_MARGIN: i32 = 2;

/// The largest half extent of a grid that the search accepts, so that the
/// neighbours of every cell have coordinates that fit `i32`.
pub const MAX_GRID_HALF_EXTENT: i32 = 1_000_000_000;

/// How often one attempt may take a segment back before it gives up.
pub const MAX_BACKTRACKS: usize = 1000;

/// How many attempts are made from one base seed.
pub const ATTEMPTS_PER_BATCH: u64 = 1000;

/// How many other base seeds are tried after the configured one.
pub const FALLBACK_ROUNDS: u64 = 5;

/// The distance between two base seeds that follow each other.
pub const FALLBACK_SEED_STRIDE: u64 = 10_000;

/// The denominator of the chance that a straight segment is preferred.
pub const STRAIGHT_CHANCE_DENOMINATOR: u32 = 1_000_000;

/// A generated track with its layout.
pub struct GeneratedTrack {
    /// The sequence of road segments that make up the track.
    pub layout: Vec<RoadSegmentType>,
    /// The starting position of the track, in world units.
    pub starting_point: Vec2,
    /// Indices of segments where props should be placed.
    pub prop_indices: Vec<usize>,
}

/// Configuration for random track generation.
pub struct TrackGeneratorConfig {
    /// Minimum number of segments (at least 4 for a valid loop).
    pub min_segments: usize,
    /// Maximum number of segments.
    pub max_segments: usize,
    /// Target difficulty in thousandths: 0 is easy (few turns), 1000 is hard
    /// (many turns).
    pub target_difficulty: i32,
    /// Seed for reproducible track generation.
    pub seed: u64,
}

/// Why a configuration is refused.
#[derive(Clone, Copy, PartialEq, Eq, Debug, Structural)]
pub enum ConfigError {
    /// `min_segments` is below the four segments of the smallest loop.
    MinSegmentsTooSmall,
    /// `max_segments` is below the four segments of the smallest loop.
    MaxSegmentsTooSmall,
    /// `max_segments` is more than the grid has cells.
    MaxSegmentsExceedGrid,
    /// `min_segments` is more than `max_segments`.
    MinSegmentsExceedMax,
    /// `target_difficulty` is below zero or above one.
    DifficultyOutOfRange,
}

/// The number of cells of the grid, which no loop without crossings can
/// exceed.
pub const MAX_GRID_SEGMENTS: usize = 299;

/// How many cells the grid reaches to the left and to the right of the origin.
pub open spec fn grid_half_width_spec() -> int {
    (WINDOW_WIDTH as int * UNITS_PER_PIXEL as int / 2) / ROAD_SEGMENT_LENGTH as int - GRID_MARGIN as int
}

/// How many cells the grid reaches above and below the origin.
pub open spec fn grid_half_height_spec() -> int {
    (WINDOW_HEIGHT as int * UNITS_PER_PIXEL as int / 2) / ROAD_SEGMENT_LENGTH as int - GRID_MARGIN
        as int
}

/// The number of cells of the grid.
pub open spec fn grid_cell_count() -> int {
    (2 * grid_half_width_spec() + 1) * (2 * grid_half_height_spec() + 1)
}

/// The grid is 23 cells wide and 13 cells high.
pub proof fn lemma_grid_size()
    ensures
        grid_half_width_spec() == 11,
        grid_half_height_spec() == 6,
        grid_cell_count() == MAX_GRID_SEGMENTS,
{
    assert(grid_half_width_spec() == 11);
    assert(grid_half_height_spec() == 6);
    let w = grid_half_width_spec();
    let h = grid_half_height_spec();
    assert((2 * w + 1) * (2 * h + 1) == 299) by (nonlinear_arith)
        requires
            w == 11,
            h == 6,
    ;
}

/// How many cells the grid reaches to the left and to the right of the origin.
pub fn grid_half_width() -> (half: i32)
    ensures
        half == grid_half_width_spec(),
        half == 11,
{
    let half_window: i32 = WINDOW_WIDTH as i32 * UNITS_PER_PIXEL / 2;
    half_window / ROAD_SEGMENT_LENGTH - GRID_MARGIN
}

/// How many cells the grid reaches above and below the origin.
pub fn grid_half_height() -> (half: i32)
    ensures
        half == grid_half_height_spec(),
        half == 6,
{
    let half_window: i32 = WINDOW_HEIGHT as i32 * UNITS_PER_PIXEL / 2;
    half_window / ROAD_SEGMENT_LENGTH - GRID_MARGIN
}

/// Calculate the maximum number of segments possible on the grid: the number
/// of its cells, which no loop without crossings can exceed.
pub fn max_grid_segments() -> (count: usize)
    ensures
        count == grid_cell_count(),
        count == MAX_GRID_SEGMENTS,
{
    let half_width: usize = grid_half_width() as usize;
    let half_height: usize = grid_half_height() as usize;
    let grid_width: usize = 2 * half_width + 1;
    let grid_height: usize = 2 * half_height + 1;
    proof {
        lemma_grid_size();
    }
    grid_width * grid_height
}

impl TrackGeneratorConfig {
    /// The first rule that the configuration breaks, if it breaks one.
    pub open spec fn validation_error(&self) -> Option<ConfigError> {
        if self.min_segments < MIN_VALID_SEGMENTS {
            Some(ConfigError::MinSegmentsTooSmall)
        } else if self.max_segments < MIN_VALID_SEGMENTS {
            Some(ConfigError::MaxSegmentsTooSmall)
        } else if self.max_segments > MAX_GRID_SEGMENTS {
            Some(ConfigError::MaxSegmentsExceedGrid)
        } else if self.min_segments > self.max_segments {
            Some(ConfigError::MinSegmentsExceedMax)
        } else if self.target_difficulty < 0 || self.target_difficulty > DIFFICULTY_ONE {
            Some(ConfigError::DifficultyOutOfRange)
        } else {
            None
        }
    }

    /// A configuration is valid when it breaks no rule.
    pub open spec fn is_valid(&self) -> bool {
        self.validation_error() is None
    }

    /// Validate the configuration: `Ok` for a valid one, else the first rule
    /// that it breaks.
    pub fn validate(&self) -> (outcome: Result<(), ConfigError>)
        ensures
            outcome is Ok <==> self.is_valid(),
            outcome matches Err(error) ==> self.validation_error() == Some(error),
    {
        let max_possible = max_grid_segments();
        if self.min_segments < MIN_VALID_SEGMENTS {
            return Err(ConfigError::MinSegmentsTooSmall);
        }
        if self.max_segments < MIN_VALID_SEGMENTS {
            return Err(ConfigError::MaxSegmentsTooSmall);
        }
        if self.max_segments > max_possible {
            return Err(ConfigError::MaxSegmentsExceedGrid);
        }
        if self.min_segments > self.max_segments {
            return Err(ConfigError::MinSegmentsExceedMax);
        }
        if self.target_difficulty < 0 || self.target_difficulty > DIFFICULTY_ONE {
            return Err(ConfigError::DifficultyOutOfRange);
        }
        Ok(())
    }
}

impl Default for TrackGeneratorConfig {
    fn default() -> (config: Self)
        ensures
            config.min_segments == 70,
            config.max_segments == 150,
            config.target_difficulty == 500,
            config.seed == 42,
            config.is_valid(),
    {
        proof {
            lemma_grid_size();
        }
        TrackGeneratorConfig { min_segments: 70, max_segments: 150, target_difficulty: 500, seed: 42 }
    }
}

/// Whether `layout` is a circuit as the generator makes them: a closed loop of
/// the asked length on the grid, that starts with two straight segments and
/// whose roads keep apart.
pub open spec fn is_generated_layout(
    layout: Seq<RoadSegmentType>,
    min_segments: int,
    max_segments: int,
    half_width: int,
    half_height: int,
) -> bool {
    &&& is_closed_loop(layout)
    &&& min_segments < layout.len() <= max_segments
    &&& layout[0] == RoadSegmentType::Straight
    &&& layout[1] == RoadSegmentType::Straight
    &&& walk_within_bounds(layout, half_width, half_height)
    &&& roads_keep_apart(layout)
}

/// The starting point that puts the centre of the walk's bounding box on the
/// origin of the world.
pub open spec fn centered_starting_point(layout: Seq<RoadSegmentType>) -> (int, int) {
    let bounds = walk_bounds(layout, layout.len() as int);
    (
        -(bounds.min_x + bounds.max_x) * (ROAD_SEGMENT_LENGTH as int / 2),
        -(bounds.min_y + bounds.max_y) * (ROAD_SEGMENT_LENGTH as int / 2),
    )
}

/// From the centred starting point the walk reaches as far to the left of the
/// world's origin as to the right of it, and as far below it as above it.
pub proof fn lemma_centered_start_centres_walk(layout: Seq<RoadSegmentType>)
    ensures
        ({
            let start = centered_starting_point(layout);
            let bounds = walk_bounds(layout, layout.len() as int);
            &&& (start.0 + ROAD_SEGMENT_LENGTH * bounds.min_x) + (start.0 + ROAD_SEGMENT_LENGTH
                * bounds.max_x) == 0
            &&& (start.1 + ROAD_SEGMENT_LENGTH * bounds.min_y) + (start.1 + ROAD_SEGMENT_LENGTH
                * bounds.max_y) == 0
        }),
{
    assert(ROAD_SEGMENT_LENGTH == 50_000);
}

/// The distance between two indices.
pub open spec fn index_distance(a: int, b: int) -> int {
    if a >= b {
        a - b
    } else {
        b - a
    }
}

/// Props stand on one to three segments of the track, no two of them closer
/// than a fifth of the track.
pub open spec fn props_are_placed(prop_indices: Seq<usize>, track_length: int) -> bool {
    &&& 1 <= prop_indices.len() <= 3
    &&& forall|i: int| 0 <= i < prop_indices.len() ==> #[trigger] prop_indices[i] < track_length
    &&& forall|i: int, j: int|
        0 <= i < j < prop_indices.len() ==> index_distance(
            #[trigger] prop_indices[i] as int,
            #[trigger] prop_indices[j] as int,
        ) >= track_length / 5
}

impl GeneratedTrack {
    /// The track of the layout, from the starting point: a valid track, if
    /// the layout is a closed loop that is not too long.
    pub fn into_track(self) -> (track: Track)
        ensures
            track.layout@ == self.layout@,
            track.starting_point == self.starting_point,
            is_closed_loop(self.layout@) && self.layout@.len() <= MAX_LAYOUT_LEN ==> track.is_valid(),
    {
        Track { layout: self.layout, starting_point: self.starting_point }
    }

    /// The track starts where its layout is centred, and its props are placed.
    pub open spec fn is_finalized(&self) -> bool {
        &&& self.starting_point.x == centered_starting_point(self.layout@).0
        &&& self.starting_point.y == centered_starting_point(self.layout@).1
        &&& props_are_placed(self.prop_indices@, self.layout@.len() as int)
    }
}

/// Check if a position has any adjacent visited cells, not counting the
/// position that the walk comes from, nor the origin.
pub fn has_adjacent_visited(pos: &GridPos, previous_pos: GridPos, visited: &CellSet) -> (found: bool)
    requires
        i32::MIN < pos.x < i32::MAX,
        i32::MIN < pos.y < i32::MAX,
    ensures
        found == has_adjacent_cell(pos@, previous_pos@, visited@),
{
    let right = GridPos { x: pos.x + 1, y: pos.y };
    let left = GridPos { x: pos.x - 1, y: pos.y };
    let up = GridPos { x: pos.x, y: pos.y + 1 };
    let down = GridPos { x: pos.x, y: pos.y - 1 };
    is_blocking_neighbour(right, previous_pos, visited) || is_blocking_neighbour(
        left,
        previous_pos,
        visited,
    ) || is_blocking_neighbour(up, previous_pos, visited) || is_blocking_neighbour(
        down,
        previous_pos,
        visited,
    )
}

/// Whether one neighbour of a new cell stands in its way.
pub fn is_blocking_neighbour(neighbour: GridPos, previous_pos: GridPos, visited: &CellSet) -> (blocks:
    bool)
    ensures
        blocks == neighbour_blocks(neighbour@, previous_pos@, visited@),
{
    if neighbour == previous_pos {
        return false;
    }
    if neighbour.x == 0 && neighbour.y == 0 {
        return false;
    }
    visited.contains(neighbour)
}

/// The moves that the walk may make from a position.
pub open spec fn valid_moves(
    current: (int, int),
    dir: Direction,
    visited: Set<(int, int)>,
    half_width: int,
    half_height: int,
) -> Seq<RoadSegmentType> {
    if move_is_allowed(current, dir, visited, half_width, half_height) {
        seq![RoadSegmentType::Straight, RoadSegmentType::CornerLeft, RoadSegmentType::CornerRight]
    } else {
        Seq::empty()
    }
}

/// Get all valid segment choices from the current state: every kind of
/// segment if the cell ahead can be entered, none if it cannot.
pub fn get_valid_moves(
    current_pos: GridPos,
    current_dir: Direction,
    visited: &CellSet,
    half_width: i32,
    half_height: i32,
) -> (moves: Vec<RoadSegmentType>)
    requires
        i32::MIN + 1 < current_pos.x < i32::MAX - 1,
        i32::MIN + 1 < current_pos.y < i32::MAX - 1,
    ensures
        moves@ == valid_moves(current_pos@, current_dir, visited@, half_width as int, half_height as int),
{
    let next_pos = get_next_grid_position(current_pos, current_dir);
    if next_pos.x > half_width || -next_pos.x > half_width || next_pos.y > half_height || -next_pos.y
        > half_height {
        return Vec::new();
    }
    if visited.contains(next_pos) && !(next_pos.x == 0 && next_pos.y == 0) {
        return Vec::new();
    }
    if has_adjacent_visited(&next_pos, current_pos, visited) {
        return Vec::new();
    }
    let mut moves = Vec::new();
    moves.push(RoadSegmentType::Straight);
    moves.push(RoadSegmentType::CornerLeft);
    moves.push(RoadSegmentType::CornerRight);
    assert(moves@ =~= seq![
        RoadSegmentType::Straight,
        RoadSegmentType::CornerLeft,
        RoadSegmentType::CornerRight,
    ]);
    moves
}

/// Whether one neighbour of the origin lets the loop close.
pub fn allows_closing(neighbour: GridPos, current_pos: GridPos, visited: &CellSet) -> (allows: bool)
    ensures
        allows == neighbour_allows_closing(neighbour@, current_pos@, visited@),
{
    if neighbour == current_pos {
        return true;
    }
    if neighbour.x == 0 && neighbour.y == 1 {
        return true;
    }
    !visited.contains(neighbour)
}

/// Check if the loop can be closed from the current position back to the
/// origin, and with which segment.
pub fn can_close_loop(current_pos: GridPos, current_dir: Direction, visited: &CellSet) -> (closing:
    Option<RoadSegmentType>)
    requires
        i32::MIN < current_pos.x < i32::MAX,
        i32::MIN < current_pos.y < i32::MAX,
    ensures
        closing == closing_segment(current_pos@, current_dir, visited@),
{
    let next_pos = get_next_grid_position(current_pos, current_dir);
    if next_pos.x != 0 || next_pos.y != 0 {
        return None;
    }
    if !allows_closing(GridPos { x: 0, y: 1 }, current_pos, visited) {
        return None;
    }
    if !allows_closing(GridPos { x: 0, y: -1 }, current_pos, visited) {
        return None;
    }
    if !allows_closing(GridPos { x: 1, y: 0 }, current_pos, visited) {
        return None;
    }
    if !allows_closing(GridPos { x: -1, y: 0 }, current_pos, visited) {
        return None;
    }
    if get_exit_direction(current_dir, RoadSegmentType::Straight) == Direction::Up {
        return Some(RoadSegmentType::Straight);
    }
    if get_exit_direction(current_dir, RoadSegmentType::CornerLeft) == Direction::Up {
        return Some(RoadSegmentType::CornerLeft);
    }
    if get_exit_direction(current_dir, RoadSegmentType::CornerRight) == Direction::Up {
        return Some(RoadSegmentType::CornerRight);
    }
    None
}

/// The numerator, over `STRAIGHT_CHANCE_DENOMINATOR`, of the chance that a
/// straight segment is preferred: 0.8 at difficulty zero, 0.2 at difficulty
/// one.
pub open spec fn straight_chance_numerator_spec(target_difficulty: int) -> int {
    800_000 - 600 * target_difficulty
}

/// The numerator, over `STRAIGHT_CHANCE_DENOMINATOR`, of the chance that a
/// straight segment is preferred.
pub fn straight_chance_numerator(target_difficulty: i32) -> (numerator: u32)
    requires
        0 <= target_difficulty <= DIFFICULTY_ONE,
    ensures
        numerator == straight_chance_numerator_spec(target_difficulty as int),
        200_000 <= numerator <= 800_000,
{
    (800_000 - 600 * target_difficulty) as u32
}

/// The corner taken when no straight segment is: the corner that the coin
/// names if it is among the moves, else the other corner if that is.
pub open spec fn corner_choice_spec(moves: Seq<RoadSegmentType>, left_first: bool) -> Option<
    RoadSegmentType,
> {
    let first = if left_first {
        RoadSegmentType::CornerLeft
    } else {
        RoadSegmentType::CornerRight
    };
    let second = if left_first {
        RoadSegmentType::CornerRight
    } else {
        RoadSegmentType::CornerLeft
    };
    if moves.contains(first) {
        Some(first)
    } else if moves.contains(second) {
        Some(second)
    } else {
        None
    }
}

/// The segment chosen among `moves` for given draws: straight if it is
/// preferred and possible, else a corner in the order of the coin, else the
/// move at the index drawn.
pub open spec fn segment_choice(
    moves: Seq<RoadSegmentType>,
    prefer_straight: bool,
    left_first: bool,
    fallback_index: int,
) -> RoadSegmentType {
    if prefer_straight && moves.contains(RoadSegmentType::Straight) {
        RoadSegmentType::Straight
    } else {
        match corner_choice_spec(moves, left_first) {
            Some(corner) => corner,
            None => moves[fallback_index],
        }
    }
}

/// Whether `kind` is among `moves`.
pub fn contains_segment(moves: &Vec<RoadSegmentType>, kind: RoadSegmentType) -> (found: bool)
    ensures
        found == moves@.contains(kind),
{
    let mut i: usize = 0;
    while i < moves.len()
        invariant
            i <= moves.len(),
            forall|j: int| 0 <= j < i ==> moves@[j] != kind,
        decreases moves.len() - i,
    {
        if moves[i] == kind {
            return true;
        }
        i = i + 1;
    }
    false
}

/// The corner taken when no straight segment is.
pub fn corner_choice(moves: &Vec<RoadSegmentType>, left_first: bool) -> (corner: Option<
    RoadSegmentType,
>)
    ensures
        corner == corner_choice_spec(moves@, left_first),
{
    if left_first {
        if contains_segment(moves, RoadSegmentType::CornerLeft) {
            return Some(RoadSegmentType::CornerLeft);
        }
        if contains_segment(moves, RoadSegmentType::CornerRight) {
            return Some(RoadSegmentType::CornerRight);
        }
    } else {
        if contains_segment(moves, RoadSegmentType::CornerRight) {
            return Some(RoadSegmentType::CornerRight);
        }
        if contains_segment(moves, RoadSegmentType::CornerLeft) {
            return Some(RoadSegmentType::CornerLeft);
        }
    }
    None
}

/// Choose a segment type based on the difficulty: the harder, the more
/// corners. Whatever is drawn, the segment is the `segment_choice` among
/// `valid_moves` for some draws, and so one of `valid_moves`.
pub fn choose_segment(
    rng: &mut ChaCha8Rng,
    valid_moves: &Vec<RoadSegmentType>,
    target_difficulty: i32,
) -> (segment: RoadSegmentType)
    requires
        valid_moves@.len() > 0,
        0 <= target_difficulty <= DIFFICULTY_ONE,
    ensures
        valid_moves@.contains(segment),
        exists|prefer_straight: bool, left_first: bool, fallback_index: int|
            0 <= fallback_index < valid_moves@.len() && segment == #[trigger] segment_choice(
                valid_moves@,
                prefer_straight,
                left_first,
                fallback_index,
            ),
{
    let prefer_straight = random_ratio(
        rng,
        straight_chance_numerator(target_difficulty),
        STRAIGHT_CHANCE_DENOMINATOR,
    );
    if prefer_straight && contains_segment(valid_moves, RoadSegmentType::Straight) {
        assert(RoadSegmentType::Straight == segment_choice(valid_moves@, true, true, 0));
        return RoadSegmentType::Straight;
    }
    let left_first = random_ratio(rng, 1, 2);
    match corner_choice(valid_moves, left_first) {
        Some(corner) => {
            assert(corner == segment_choice(valid_moves@, prefer_straight, left_first, 0));
            corner
        },
        None => {
            let fallback_index = random_range(rng, 0, valid_moves.len());
            let segment = valid_moves[fallback_index];
            assert(segment == segment_choice(
                valid_moves@,
                prefer_straight,
                left_first,
                fallback_index as int,
            ));
            segment
        },
    }
}

/// Whether `idx` is at least `min_separation` away from every index of
/// `existing`.
pub fn is_separated(idx: usize, existing: &Vec<usize>, min_separation: usize) -> (separated: bool)
    ensures
        separated == (forall|i: int|
            0 <= i < existing@.len() ==> index_distance(idx as int, #[trigger] existing@[i] as int)
                >= min_separation),
{
    let mut i: usize = 0;
    while i < existing.len()
        invariant
            i <= existing.len(),
            forall|j: int|
                0 <= j < i ==> index_distance(idx as int, #[trigger] existing@[j] as int)
                    >= min_separation,
        decreases existing.len() - i,
    {
        let other = existing[i];
        let dist = if idx >= other {
            idx - other
        } else {
            other - idx
        };
        if dist < min_separation {
            return false;
        }
        i = i + 1;
    }
    true
}

/// Finalize the track: the starting point that centres the layout's bounding
/// box on the origin of the world, and the segments on which props stand.
pub fn finalize_track(layout: Vec<RoadSegmentType>, rng: &mut ChaCha8Rng) -> (track: GeneratedTrack)
    requires
        0 < layout@.len() <= MAX_LAYOUT_LEN,
    ensures
        track.layout@ == layout@,
        track.is_finalized(),
{
    let mut current_pos = GridPos { x: 0, y: 0 };
    let mut current_dir = Direction::Up;
    let mut min_x: i32 = 0;
    let mut max_x: i32 = 0;
    let mut min_y: i32 = 0;
    let mut max_y: i32 = 0;
    let mut k: usize = 0;
    while k < layout.len()
        invariant
            k <= layout@.len() <= MAX_LAYOUT_LEN,
            current_pos@ == walk_cell(layout@, k as int),
            current_dir == walk_direction(layout@, k as int),
            min_x == walk_bounds(layout@, k as int).min_x,
            max_x == walk_bounds(layout@, k as int).max_x,
            min_y == walk_bounds(layout@, k as int).min_y,
            max_y == walk_bounds(layout@, k as int).max_y,
            -(k as int) <= min_x <= 0 <= max_x <= k,
            -(k as int) <= min_y <= 0 <= max_y <= k,
        decreases layout@.len() - k,
    {
        proof {
            lemma_walk_cell_bounded(layout@, k as int);
            lemma_walk_cell_bounded(layout@, k as int + 1);
        }
        current_pos = get_next_grid_position(current_pos, current_dir);
        if current_pos.x < min_x {
            min_x = current_pos.x;
        }
        if current_pos.x > max_x {
            max_x = current_pos.x;
        }
        if current_pos.y < min_y {
            min_y = current_pos.y;
        }
        if current_pos.y > max_y {
            max_y = current_pos.y;
        }
        current_dir = get_exit_direction(current_dir, layout[k]);
        k = k + 1;
    }
    let half_segment: i32 = ROAD_SEGMENT_LENGTH / 2;
    let starting_point = Vec2 {
        x: -((min_x + max_x) * half_segment),
        y: -((min_y + max_y) * half_segment),
    };

    let track_length = layout.len();
    let min_separation = track_length / 5;
    let num_props = random_range(rng, 1, 4);
    let mut prop_indices: Vec<usize> = Vec::new();
    let mut attempts: usize = 0;
    while prop_indices.len() < num_props && attempts < 100
        invariant
            track_length == layout@.len(),
            track_length > 0,
            min_separation == track_length / 5,
            1 <= num_props <= 3,
            attempts <= 100,
            attempts >= 1 ==> prop_indices@.len() >= 1,
            prop_indices@.len() <= num_props,
            forall|i: int| 0 <= i < prop_indices@.len() ==> #[trigger] prop_indices@[i] < track_length,
            forall|i: int, j: int|
                0 <= i < j < prop_indices@.len() ==> index_distance(
                    #[trigger] prop_indices@[i] as int,
                    #[trigger] prop_indices@[j] as int,
                ) >= min_separation,
        decreases 100 - attempts,
    {
        let idx = random_range(rng, 0, track_length);
        if is_separated(idx, &prop_indices, min_separation) {
            prop_indices.push(idx);
        }
        attempts = attempts + 1;
    }
    GeneratedTrack { layout, starting_point, prop_indices }
}

/// The cells that the walk of a layout passes, the origin included.
pub open spec fn walk_cells(layout: Seq<RoadSegmentType>) -> Set<(int, int)> {
    Set::new(
        |c: (int, int)| exists|i: int| 0 <= i <= layout.len() && #[trigger] walk_cell(layout, i) == c,
    )
}

/// How the search of one attempt ends.
pub enum SearchEnd {
    /// The walk has closed: this is its layout, after so many choices.
    Closed { layout: Seq<RoadSegmentType>, used: int },
    /// The search has given up, after so many choices: it could take no
    /// segment back, or has taken too many back, or the walk has become too
    /// long.
    GaveUp { used: int },
    /// The search asks for one more choice than there are.
    OutOfChoices,
}

/// How the search ends that goes on from the layout placed so far, after
/// `backtracks` segments were taken back and `used` of the `choices` were
/// made: the segment chosen for the next cell is `choices[used]`.
///
/// The search gives up when the layout has `max_segments` or a thousand
/// segments were taken back. Else it closes the loop if the layout has
/// `min_segments` and a segment closes it. Else, where the cell ahead cannot
/// be entered, it takes the last segment back, or gives up if that is one of
/// the two first. Else it places the segment of the next choice.
pub open spec fn search_end(
    layout: Seq<RoadSegmentType>,
    backtracks: int,
    choices: Seq<RoadSegmentType>,
    used: int,
    min_segments: int,
    max_segments: int,
    half_width: int,
    half_height: int,
) -> SearchEnd
    decreases 2 * (MAX_BACKTRACKS - backtracks) + (max_segments - layout.len()),
{
    let n = layout.len() as int;
    let position = walk_cell(layout, n);
    let direction = walk_direction(layout, n);
    let visited = walk_cells(layout);
    if n >= max_segments || backtracks >= MAX_BACKTRACKS {
        SearchEnd::GaveUp { used }
    } else if n >= min_segments && closing_segment(position, direction, visited) is Some {
        SearchEnd::Closed { layout: layout.push(closing_segment(position, direction, visited).unwrap()), used }
    } else if !move_is_allowed(position, direction, visited, half_width, half_height) {
        if n <= 2 {
            SearchEnd::GaveUp { used }
        } else {
            search_end(
                layout.drop_last(),
                backtracks + 1,
                choices,
                used,
                min_segments,
                max_segments,
                half_width,
                half_height,
            )
        }
    } else if used < 0 || used >= choices.len() {
        SearchEnd::OutOfChoices
    } else {
        search_end(
            layout.push(choices[used]),
            backtracks,
            choices,
            used + 1,
            min_segments,
            max_segments,
            half_width,
            half_height,
        )
    }
}

/// How an attempt ends whose choices are `choices`: the search from the two
/// straight segments that every track starts with.
pub open spec fn attempt_end(
    choices: Seq<RoadSegmentType>,
    min_segments: int,
    max_segments: int,
    half_width: int,
    half_height: int,
) -> SearchEnd {
    search_end(
        seq![RoadSegmentType::Straight, RoadSegmentType::Straight],
        0,
        choices,
        0,
        min_segments,
        max_segments,
        half_width,
        half_height,
    )
}

/// Whether an attempt can end with `layout`, or with none: whether there are
/// choices that the search uses up and ends so with.
pub open spec fn is_attempt_result(
    layout: Option<Seq<RoadSegmentType>>,
    min_segments: int,
    max_segments: int,
    half_width: int,
    half_height: int,
) -> bool {
    exists|choices: Seq<RoadSegmentType>| #[trigger]
        attempt_end(choices, min_segments, max_segments, half_width, half_height) == match layout {
            Some(found) => SearchEnd::Closed { layout: found, used: choices.len() as int },
            None => SearchEnd::GaveUp { used: choices.len() as int },
        }
}

/// The layout of a track, if there is one.
pub open spec fn layout_of(track: Option<GeneratedTrack>) -> Option<Seq<RoadSegmentType>> {
    match track {
        Some(t) => Some(t.layout@),
        None => None,
    }
}

/// A single attempt at generating a track with backtracking: a walk on the
/// grid that starts with two straight segments, never enters a cell twice,
/// never runs beside itself, takes a segment back where it is stuck, and
/// closes as soon as it can once it has `min_segments`. Whatever is drawn,
/// the attempt ends as the search does on the choices that were made, and a
/// track that comes back is a circuit as the generator makes them.
pub fn try_generate_track(
    rng: &mut ChaCha8Rng,
    config: &TrackGeneratorConfig,
    half_width: i32,
    half_height: i32,
) -> (track: Option<GeneratedTrack>)
    requires
        config.max_segments <= MAX_LAYOUT_LEN,
        0 <= config.target_difficulty <= DIFFICULTY_ONE,
        half_width <= MAX_GRID_HALF_EXTENT,
        half_height <= MAX_GRID_HALF_EXTENT,
    ensures
        is_attempt_result(
            layout_of(track),
            config.min_segments as int,
            config.max_segments as int,
            half_width as int,
            half_height as int,
        ),
        track matches Some(t) ==> {
            &&& is_generated_layout(
                t.layout@,
                config.min_segments as int,
                config.max_segments as int,
                half_width as int,
                half_height as int,
            )
            &&& t.is_finalized()
        },
{
    let mut layout: Vec<RoadSegmentType> = Vec::new();
    let mut visited = CellSet::new();
    let mut path: Vec<(GridPos, Direction)> = Vec::new();

    let mut current_pos = GridPos { x: 0, y: 0 };
    let mut current_dir = Direction::Up;

    visited.insert(current_pos);
    path.push((current_pos, current_dir));

    // The first two segments are straight: the start and finish lines lie on them.
    let first_pos = get_next_grid_position(current_pos, current_dir);
    layout.push(RoadSegmentType::Straight);
    visited.insert(first_pos);
    current_pos = first_pos;
    path.push((current_pos, current_dir));

    let second_pos = get_next_grid_position(current_pos, current_dir);
    layout.push(RoadSegmentType::Straight);
    visited.insert(second_pos);
    current_pos = second_pos;
    path.push((current_pos, current_dir));

    // The choices made so far.
    let ghost mut made: Seq<RoadSegmentType> = Seq::empty();
    proof {
        assert(layout@ =~= seq![RoadSegmentType::Straight, RoadSegmentType::Straight]);
        lemma_search_start(layout@, visited@, half_width as int, half_height as int);
        lemma_walk_start(layout@);
    }

    let mut backtrack_count: usize = 0;

    while layout.len() < config.max_segments && backtrack_count < MAX_BACKTRACKS
        invariant
            config.max_segments <= MAX_LAYOUT_LEN,
            0 <= config.target_difficulty <= DIFFICULTY_ONE,
            half_width <= MAX_GRID_HALF_EXTENT,
            half_height <= MAX_GRID_HALF_EXTENT,
            backtrack_count <= MAX_BACKTRACKS,
            search_invariant(layout@, visited@, half_width as int, half_height as int),
            path@.len() == layout@.len() + 1,
            forall|i: int|
                0 <= i < path@.len() ==> (#[trigger] path@[i]).0@ == walk_cell(layout@, i) && path@[i].1
                    == walk_direction(layout@, i),
            current_pos@ == walk_cell(layout@, layout@.len() as int),
            current_dir == walk_direction(layout@, layout@.len() as int),
            forall|rest: Seq<RoadSegmentType>| #[trigger]
                attempt_end(
                    made + rest,
                    config.min_segments as int,
                    config.max_segments as int,
                    half_width as int,
                    half_height as int,
                ) == search_end(
                    layout@,
                    backtrack_count as int,
                    made + rest,
                    made.len() as int,
                    config.min_segments as int,
                    config.max_segments as int,
                    half_width as int,
                    half_height as int,
                ),
        decreases 2 * (MAX_BACKTRACKS - backtrack_count) + (MAX_LAYOUT_LEN - layout@.len()),
    {
        proof {
            assert(in_bounds(
                walk_cell(layout@, layout@.len() as int),
                max_int(half_width as int, 0),
                max_int(half_height as int, 2),
            ));
            assert(visited@ =~= walk_cells(layout@));
        }
        // Close the loop as soon as it is long enough and can be closed.
        let mut closing: Option<RoadSegmentType> = None;
        if layout.len() >= config.min_segments {
            closing = can_close_loop(current_pos, current_dir, &visited);
        }
        if let Some(closing_segment) = closing {
            proof {
                lemma_search_close(
                    layout@,
                    closing_segment,
                    visited@,
                    half_width as int,
                    half_height as int,
                );
                assert(made + Seq::<RoadSegmentType>::empty() =~= made);
                assert(attempt_end(
                    made,
                    config.min_segments as int,
                    config.max_segments as int,
                    half_width as int,
                    half_height as int,
                ) == (SearchEnd::Closed { layout: layout@.push(closing_segment), used: made.len() as int }));
            }
            layout.push(closing_segment);
            return Some(finalize_track(layout, rng));
        }
        let valid_moves = get_valid_moves(
            current_pos,
            current_dir,
            &visited,
            half_width,
            half_height,
        );

        if valid_moves.len() == 0 {
            // Take the last segment back, but never one of the two first.
            if layout.len() <= 2 {
                proof {
                    assert(made + Seq::<RoadSegmentType>::empty() =~= made);
                    assert(attempt_end(
                        made,
                        config.min_segments as int,
                        config.max_segments as int,
                        half_width as int,
                        half_height as int,
                    ) == (SearchEnd::GaveUp { used: made.len() as int }));
                }
                return None;
            }
            proof {
                lemma_search_retract(layout@, visited@, half_width as int, half_height as int);
                lemma_walk_drop_last(layout@);
                assert forall|rest: Seq<RoadSegmentType>| #[trigger]
                    attempt_end(
                        made + rest,
                        config.min_segments as int,
                        config.max_segments as int,
                        half_width as int,
                        half_height as int,
                    ) == search_end(
                        layout@.drop_last(),
                        backtrack_count as int + 1,
                        made + rest,
                        made.len() as int,
                        config.min_segments as int,
                        config.max_segments as int,
                        half_width as int,
                        half_height as int,
                    ) by {
                    assert(search_end(
                        layout@,
                        backtrack_count as int,
                        made + rest,
                        made.len() as int,
                        config.min_segments as int,
                        config.max_segments as int,
                        half_width as int,
                        half_height as int,
                    ) == search_end(
                        layout@.drop_last(),
                        backtrack_count as int + 1,
                        made + rest,
                        made.len() as int,
                        config.min_segments as int,
                        config.max_segments as int,
                        half_width as int,
                        half_height as int,
                    ));
                }
            }
            layout.pop();
            path.pop();
            visited.remove(current_pos);
            let (pos, dir) = path[path.len() - 1];
            current_pos = pos;
            current_dir = dir;
            backtrack_count = backtrack_count + 1;
        } else {
            let segment = choose_segment(rng, &valid_moves, config.target_difficulty);
            let next_pos = get_next_grid_position(current_pos, current_dir);
            let next_dir = get_exit_direction(current_dir, segment);
            proof {
                lemma_search_extend(
                    layout@,
                    segment,
                    visited@,
                    half_width as int,
                    half_height as int,
                );
                lemma_walk_push(layout@, segment);
                assert forall|rest: Seq<RoadSegmentType>| #[trigger]
                    attempt_end(
                        made.push(segment) + rest,
                        config.min_segments as int,
                        config.max_segments as int,
                        half_width as int,
                        half_height as int,
                    ) == search_end(
                        layout@.push(segment),
                        backtrack_count as int,
                        made.push(segment) + rest,
                        made.len() as int + 1,
                        config.min_segments as int,
                        config.max_segments as int,
                        half_width as int,
                        half_height as int,
                    ) by {
                    let longer = seq![segment] + rest;
                    assert(made + longer =~= made.push(segment) + rest);
                    assert((made + longer)[made.len() as int] == segment);
                    assert(search_end(
                        layout@,
                        backtrack_count as int,
                        made + longer,
                        made.len() as int,
                        config.min_segments as int,
                        config.max_segments as int,
                        half_width as int,
                        half_height as int,
                    ) == search_end(
                        layout@.push(segment),
                        backtrack_count as int,
                        made + longer,
                        made.len() as int + 1,
                        config.min_segments as int,
                        config.max_segments as int,
                        half_width as int,
                        half_height as int,
                    ));
                }
                made = made.push(segment);
            }
            layout.push(segment);
            visited.insert(next_pos);
            current_pos = next_pos;
            current_dir = next_dir;
            path.push((current_pos, current_dir));
        }
    }

    proof {
        assert(made + Seq::<RoadSegmentType>::empty() =~= made);
        assert(attempt_end(
            made,
            config.min_segments as int,
            config.max_segments as int,
            half_width as int,
            half_height as int,
        ) == (SearchEnd::GaveUp { used: made.len() as int }));
    }
    None
}

/// The seed of attempt number `attempt` under `base_seed`: the hash of the
/// two numbers' bytes, least significant byte first, one number after the
/// other.
pub open spec fn derived_seed(base_seed: u64, attempt: u64) -> u64 {
    DefaultHasher::spec_finish(
        seq![spec_u64_to_le_bytes(base_seed), spec_u64_to_le_bytes(attempt)],
    )
}

/// Derive the seed of one attempt from the base seed and the attempt's index.
/// A hash keeps the attempts of different base seeds from overlapping.
pub fn derive_seed(base_seed: u64, attempt: u64) -> (seed: u64)
    ensures
        seed == derived_seed(base_seed, attempt),
{
    let mut hasher = DefaultHasher::new();
    let base_bytes = u64_to_le_bytes(base_seed);
    hasher.write(base_bytes.as_slice());
    let attempt_bytes = u64_to_le_bytes(attempt);
    hasher.write(attempt_bytes.as_slice());
    assert(hasher@ =~= seq![spec_u64_to_le_bytes(base_seed), spec_u64_to_le_bytes(attempt)]);
    hasher.finish()
}

/// The attempt with index `attempt` under `base_seed`, from a generator of its
/// own that is seeded with the attempt's derived seed.
pub fn try_generate_track_with_seed(
    config: &TrackGeneratorConfig,
    base_seed: u64,
    attempt: u64,
    half_width: i32,
    half_height: i32,
) -> (track: Option<GeneratedTrack>)
    requires
        config.max_segments <= MAX_LAYOUT_LEN,
        0 <= config.target_difficulty <= DIFFICULTY_ONE,
        half_width <= MAX_GRID_HALF_EXTENT,
        half_height <= MAX_GRID_HALF_EXTENT,
    ensures
        is_attempt_result(
            layout_of(track),
            config.min_segments as int,
            config.max_segments as int,
            half_width as int,
            half_height as int,
        ),
        track matches Some(t) ==> {
            &&& is_generated_layout(
                t.layout@,
                config.min_segments as int,
                config.max_segments as int,
                half_width as int,
                half_height as int,
            )
            &&& t.is_finalized()
        },
{
    let attempt_seed = derive_seed(base_seed, attempt);
    let mut rng = rng_from_seed(attempt_seed);
    try_generate_track(&mut rng, config, half_width, half_height)
}

/// Runs the attempts of one base seed in the order of their indices, and
/// returns the track of the first that succeeds. No track comes back only
/// after an attempt that has given up.
pub fn run_batch(config: &TrackGeneratorConfig, base_seed: u64, half_width: i32, half_height: i32) -> (track:
    Option<GeneratedTrack>)
    requires
        config.max_segments <= MAX_LAYOUT_LEN,
        0 <= config.target_difficulty <= DIFFICULTY_ONE,
        half_width <= MAX_GRID_HALF_EXTENT,
        half_height <= MAX_GRID_HALF_EXTENT,
    ensures
        is_attempt_result(
            layout_of(track),
            config.min_segments as int,
            config.max_segments as int,
            half_width as int,
            half_height as int,
        ),
        track matches Some(t) ==> {
            &&& is_generated_layout(
                t.layout@,
                config.min_segments as int,
                config.max_segments as int,
                half_width as int,
                half_height as int,
            )
            &&& t.is_finalized()
        },
{
    let mut attempt: u64 = 0;
    while attempt < ATTEMPTS_PER_BATCH
        invariant
            config.max_segments <= MAX_LAYOUT_LEN,
            0 <= config.target_difficulty <= DIFFICULTY_ONE,
            half_width <= MAX_GRID_HALF_EXTENT,
            half_height <= MAX_GRID_HALF_EXTENT,
            attempt <= ATTEMPTS_PER_BATCH,
            attempt > 0 ==> is_attempt_result(
                None,
                config.min_segments as int,
                config.max_segments as int,
                half_width as int,
                half_height as int,
            ),
        decreases ATTEMPTS_PER_BATCH - attempt,
    {
        let found = try_generate_track_with_seed(config, base_seed, attempt, half_width, half_height);
        if found.is_some() {
            return found;
        }
        attempt = attempt + 1;
    }
    None
}

/// The base seed of fallback round `round`: the configured seed and ten
/// thousand for each round, wrapping round where the numbers end. Round zero
/// is the configured seed.
pub open spec fn fallback_seed_spec(seed: u64, round: u64) -> u64 {
    seed.wrapping_add(round.wrapping_mul(FALLBACK_SEED_STRIDE))
}

/// The base seed of fallback round `round`.
#[verifier::when_used_as_spec(fallback_seed_spec)]
pub fn fallback_seed(seed: u64, round: u64) -> (base_seed: u64)
    ensures
        base_seed == fallback_seed_spec(seed, round),
        round * FALLBACK_SEED_STRIDE <= u64::MAX ==> base_seed == (seed + round * FALLBACK_SEED_STRIDE) % 0x1_0000_0000_0000_0000,
{
    seed.wrapping_add(round.wrapping_mul(FALLBACK_SEED_STRIDE))
}

/// The first level whose track is generated; the levels before it have
/// tracks of their own.
pub const FIRST_GENERATED_LEVEL: usize = 4;

/// The configuration of the track of a generated level: fifty to a hundred
/// and twenty segments of middle difficulty, seeded with the level's number.
pub fn level_track_config(level: usize) -> (config: TrackGeneratorConfig)
    ensures
        config.min_segments == 50,
        config.max_segments == 120,
        config.target_difficulty == 500,
        config.seed == level,
        config.is_valid(),
{
    proof {
        lemma_grid_size();
    }
    TrackGeneratorConfig { min_segments: 50, max_segments: 120, target_difficulty: 500, seed: level as u64 }
}

/// Generate a random track using a self-avoiding walk with backtracking.
///
/// An invalid configuration is refused before any search. For a valid one, a
/// batch of attempts is made from the configured seed, then from each of the
/// fallback seeds in turn; the first attempt that closes a loop gives the
/// track. `Ok(None)` says that no attempt did: it comes back only after an
/// attempt whose search has given up.
pub fn generate_random_track(config: &TrackGeneratorConfig) -> (outcome: Result<
    Option<GeneratedTrack>,
    ConfigError,
>)
    ensures
        outcome is Ok <==> config.is_valid(),
        outcome matches Err(error) ==> config.validation_error() == Some(error),
        outcome matches Ok(found) ==> is_attempt_result(
            layout_of(found),
            config.min_segments as int,
            config.max_segments as int,
            grid_half_width_spec(),
            grid_half_height_spec(),
        ),
        outcome matches Ok(Some(t)) ==> {
            &&& is_generated_layout(
                t.layout@,
                config.min_segments as int,
                config.max_segments as int,
                grid_half_width_spec(),
                grid_half_height_spec(),
            )
            &&& t.is_finalized()
        },
{
    match config.validate() {
        Err(error) => {
            return Err(error);
        },
        Ok(()) => {},
    }
    proof {
        lemma_grid_size();
    }
    let half_width = grid_half_width();
    let half_height = grid_half_height();

    let mut round: u64 = 0;
    while round <= FALLBACK_ROUNDS
        invariant
            config.is_valid(),
            half_width == grid_half_width_spec(),
            half_height == grid_half_height_spec(),
            half_width == 11,
            half_height == 6,
            round <= FALLBACK_ROUNDS + 1,
            round > 0 ==> is_attempt_result(
                None,
                config.min_segments as int,
                config.max_segments as int,
                grid_half_width_spec(),
                grid_half_height_spec(),
            ),
        decreases FALLBACK_ROUNDS + 1 - round,
    {
        proof {
            lemma_grid_size();
        }
        let found = run_batch(config, fallback_seed(config.seed, round), half_width, half_height);
        if found.is_some() {
            return Ok(found);
        }
        round = round + 1;
    }
    Ok(None)
}

} // verus!
