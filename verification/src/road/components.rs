use vstd::prelude::*;
use crate::collision::{Transform, Vec2};

verus! {

/// The kind of one road segment.
#[derive(Clone, Copy, PartialEq, Eq, Debug, Hash, Structural)]
pub enum RoadSegmentType {
    Straight,
    CornerLeft,
    CornerRight,
}

/// A track definition containing the layout and starting position.
pub struct Track {
    /// The sequence of road segments that make up the track.
    pub layout: Vec<RoadSegmentType>,
    /// The starting position of the track (world coordinates): the centre of
    /// its first segment.
    pub starting_point: Vec2,
}

/// A direction of travel along the grid axes.
#[derive(Clone, Copy, PartialEq, Eq, Debug, Hash, Structural)]
pub enum Direction {
    Up,
    Down,
    Left,
    Right,
}

/// A cell of the grid on which a layout is walked.
#[derive(Clone, Copy, PartialEq, Eq, Debug, Hash, Structural)]
pub struct GridPos {
    pub x: i32,
    pub y: i32,
}

impl View for GridPos {
    type V = (int, int);

    open spec fn view(&self) -> (int, int) {
        (self.x as int, self.y as int)
    }
}

/// A road segment placed in the world.
#[derive(Clone, Copy, PartialEq, Eq, Debug, Structural)]
pub struct RoadSegment {
    pub segment_type: RoadSegmentType,
    /// The direction of travel in which the segment is entered.
    pub direction: Direction,
    /// Where the segment's shape lies: the centre of a straight segment, the
    /// pivot of a corner.
    pub transform: Transform,
    /// Whether the car has touched the segment in this race.
    pub visited: bool,
}

/// The start line. The direction indicates which way the car must cross to
/// trigger the start.
#[derive(Clone, Copy, PartialEq, Eq, Debug, Structural)]
pub struct StartLine {
    pub position: Vec2,
    pub direction: Direction,
}

/// The finish line. The direction indicates which way the car must cross to
/// trigger the finish.
#[derive(Clone, Copy, PartialEq, Eq, Debug, Structural)]
pub struct FinishLine {
    pub position: Vec2,
    pub direction: Direction,
}

} // verus!
