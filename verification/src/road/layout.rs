use vstd::prelude::*;
use crate::road::cell_set::CellSet;
use crate::collision::Vec2;
use crate::road::components::{Direction, GridPos, RoadSegmentType, Track};
use crate::road::helpers::{exit_direction, get_exit_direction};

verus! {

/// The longest layout that a track can have: every cell of its walk then lies
/// less than a thousand million world units from the first, so that the track
/// can be placed in the world.
pub const MAX_LAYOUT_LEN: usize = 20_000;

/// The cell reached by one step from `pos` in direction `dir`.
pub open spec fn next_cell(pos: (int, int), dir: Direction) -> (int, int) {
    match dir {
        Direction::Up => (pos.0, pos.1 + 1),
        Direction::Down => (pos.0, pos.1 - 1),
        Direction::Left => (pos.0 - 1, pos.1),
        Direction::Right => (pos.0 + 1, pos.1),
    }
}

/// The direction of travel after the first `k` segments of `layout`, starting
/// out heading up.
pub open spec fn walk_direction(layout: Seq<RoadSegmentType>, k: int) -> Direction
    decreases k,
{
    if k <= 0 {
        Direction::Up
    } else {
        exit_direction(walk_direction(layout, k - 1), layout[k - 1])
    }
}

/// The cell reached after the first `k` segments of `layout`, starting at the
/// origin: segment `k - 1` lies on it.
pub open spec fn walk_cell(layout: Seq<RoadSegmentType>, k: int) -> (int, int)
    decreases k,
{
    if k <= 0 {
        (0, 0)
    } else {
        next_cell(walk_cell(layout, k - 1), walk_direction(layout, k - 1))
    }
}

/// No cell is reached twice by the first `k` steps of the walk, the origin
/// included.
pub open spec fn walk_is_simple(layout: Seq<RoadSegmentType>, k: int) -> bool {
    forall|i: int, j: int| 0 <= i < j < k ==> walk_cell(layout, i) != walk_cell(layout, j)
}

/// A layout is a closed loop when its walk never meets itself before the last
/// step, and the last step arrives at the origin heading up.
pub open spec fn is_closed_loop(layout: Seq<RoadSegmentType>) -> bool {
    &&& layout.len() > 0
    &&& walk_is_simple(layout, layout.len() as int)
    &&& walk_cell(layout, layout.len() as int) == (0int, 0int)
    &&& walk_direction(layout, layout.len() as int) == Direction::Up
}

/// Why a layout is not that of a track.
#[derive(Clone, Copy, PartialEq, Eq, Debug, Structural)]
pub enum InvalidTrack {
    /// The layout has no segment.
    Empty,
    /// The layout has more than `MAX_LAYOUT_LEN` segments.
    TooLong,
    /// The walk comes back to a cell that it has already left.
    SelfIntersection,
    /// The walk does not end on the origin.
    NotClosed,
    /// The walk ends on the origin, but not heading up.
    WrongExitDirection,
}

/// What `validate_layout` answers for a layout.
pub open spec fn layout_verdict(layout: Seq<RoadSegmentType>) -> Result<(), InvalidTrack> {
    if layout.len() == 0 {
        Err(InvalidTrack::Empty)
    } else if layout.len() > MAX_LAYOUT_LEN {
        Err(InvalidTrack::TooLong)
    } else if !walk_is_simple(layout, layout.len() as int) {
        Err(InvalidTrack::SelfIntersection)
    } else if walk_cell(layout, layout.len() as int) != (0int, 0int) {
        Err(InvalidTrack::NotClosed)
    } else if walk_direction(layout, layout.len() as int) != Direction::Up {
        Err(InvalidTrack::WrongExitDirection)
    } else {
        Ok(())
    }
}

/// The verdict is `Ok` exactly for the closed loops that are not too long.
pub proof fn lemma_verdict_ok_iff_closed_loop(layout: Seq<RoadSegmentType>)
    ensures
        layout_verdict(layout) is Ok <==> is_closed_loop(layout) && layout.len() <= MAX_LAYOUT_LEN,
{
}

/// No step of a walk moves a coordinate by more than one.
pub proof fn lemma_walk_cell_bounded(layout: Seq<RoadSegmentType>, k: int)
    requires
        0 <= k,
    ensures
        -k <= walk_cell(layout, k).0 <= k,
        -k <= walk_cell(layout, k).1 <= k,
    decreases k,
{
    if k > 0 {
        lemma_walk_cell_bounded(layout, k - 1);
    }
}

/// The smallest box of cells that holds a walk.
pub struct GridBounds {
    pub min_x: int,
    pub max_x: int,
    pub min_y: int,
    pub max_y: int,
}

/// The bounding box of the origin and the first `k` cells of the walk.
pub open spec fn walk_bounds(layout: Seq<RoadSegmentType>, k: int) -> GridBounds
    decreases k,
{
    if k <= 0 {
        GridBounds { min_x: 0, max_x: 0, min_y: 0, max_y: 0 }
    } else {
        let before = walk_bounds(layout, k - 1);
        let cell = walk_cell(layout, k);
        GridBounds {
            min_x: if cell.0 < before.min_x { cell.0 } else { before.min_x },
            max_x: if cell.0 > before.max_x { cell.0 } else { before.max_x },
            min_y: if cell.1 < before.min_y { cell.1 } else { before.min_y },
            max_y: if cell.1 > before.max_y { cell.1 } else { before.max_y },
        }
    }
}

/// The bounding box holds every cell of the walk, and each of its four sides
/// touches one.
pub proof fn lemma_walk_bounds_are_tight(layout: Seq<RoadSegmentType>, k: int)
    requires
        0 <= k,
    ensures
        forall|i: int|
            0 <= i <= k ==> walk_bounds(layout, k).min_x <= (#[trigger] walk_cell(layout, i)).0
                <= walk_bounds(layout, k).max_x,
        forall|i: int|
            0 <= i <= k ==> walk_bounds(layout, k).min_y <= (#[trigger] walk_cell(layout, i)).1
                <= walk_bounds(layout, k).max_y,
        exists|i: int| 0 <= i <= k && (#[trigger] walk_cell(layout, i)).0 == walk_bounds(layout, k).min_x,
        exists|i: int| 0 <= i <= k && (#[trigger] walk_cell(layout, i)).0 == walk_bounds(layout, k).max_x,
        exists|i: int| 0 <= i <= k && (#[trigger] walk_cell(layout, i)).1 == walk_bounds(layout, k).min_y,
        exists|i: int| 0 <= i <= k && (#[trigger] walk_cell(layout, i)).1 == walk_bounds(layout, k).max_y,
    decreases k,
{
    if k == 0 {
        assert(walk_cell(layout, 0) == (0int, 0int));
    } else {
        lemma_walk_bounds_are_tight(layout, k - 1);
        let before = walk_bounds(layout, k - 1);
        let now = walk_bounds(layout, k);
        let cell = walk_cell(layout, k);
        let i0 = choose|i: int| 0 <= i <= k - 1 && (#[trigger] walk_cell(layout, i)).0 == before.min_x;
        let i1 = choose|i: int| 0 <= i <= k - 1 && (#[trigger] walk_cell(layout, i)).0 == before.max_x;
        let i2 = choose|i: int| 0 <= i <= k - 1 && (#[trigger] walk_cell(layout, i)).1 == before.min_y;
        let i3 = choose|i: int| 0 <= i <= k - 1 && (#[trigger] walk_cell(layout, i)).1 == before.max_y;
        assert(walk_cell(layout, if cell.0 < before.min_x { k } else { i0 }).0 == now.min_x);
        assert(walk_cell(layout, if cell.0 > before.max_x { k } else { i1 }).0 == now.max_x);
        assert(walk_cell(layout, if cell.1 < before.min_y { k } else { i2 }).1 == now.min_y);
        assert(walk_cell(layout, if cell.1 > before.max_y { k } else { i3 }).1 == now.max_y);
    }
}

/// Get the next grid position when moving in a direction.
pub fn get_next_grid_position(pos: GridPos, dir: Direction) -> (next: GridPos)
    requires
        i32::MIN < pos.x < i32::MAX,
        i32::MIN < pos.y < i32::MAX,
    ensures
        next@ == next_cell(pos@, dir),
{
    match dir {
        Direction::Up => GridPos { x: pos.x, y: pos.y + 1 },
        Direction::Down => GridPos { x: pos.x, y: pos.y - 1 },
        Direction::Left => GridPos { x: pos.x - 1, y: pos.y },
        Direction::Right => GridPos { x: pos.x + 1, y: pos.y },
    }
}

/// Walks `layout` from the origin heading up and says whether it is a closed
/// loop that is not too long, and if not, what is wrong with it first.
pub fn validate_layout(layout: &Vec<RoadSegmentType>) -> (verdict: Result<(), InvalidTrack>)
    ensures
        verdict == layout_verdict(layout@),
{
    let n = layout.len();
    if n == 0 {
        return Err(InvalidTrack::Empty);
    }
    if n > MAX_LAYOUT_LEN {
        return Err(InvalidTrack::TooLong);
    }
    let mut visited = CellSet::new();
    let mut pos = GridPos { x: 0, y: 0 };
    let mut dir = Direction::Up;
    let mut k: usize = 0;
    while k + 1 < n
        invariant
            n == layout@.len(),
            n <= MAX_LAYOUT_LEN,
            k < n,
            pos@ == walk_cell(layout@, k as int),
            dir == walk_direction(layout@, k as int),
            walk_is_simple(layout@, k as int + 1),
            forall|cell: (int, int)| visited@.contains(cell) <==> exists|i: int| 0 <= i < k && walk_cell(layout@, i) == cell,
        decreases n - k,
    {
        proof {
            lemma_walk_cell_bounded(layout@, k as int);
        }
        visited.insert(pos);
        let next = get_next_grid_position(pos, dir);
        dir = get_exit_direction(dir, layout[k]);
        pos = next;
        k = k + 1;
        assert(pos@ == walk_cell(layout@, k as int));
        if visited.contains(pos) {
            proof {
                let i = choose|i: int| 0 <= i < k && walk_cell(layout@, i) == pos@;
                assert(walk_cell(layout@, i) == walk_cell(layout@, k as int));
                assert(!walk_is_simple(layout@, n as int));
            }
            return Err(InvalidTrack::SelfIntersection);
        }
        assert(walk_is_simple(layout@, k as int + 1)) by {
            assert forall|i: int, j: int| 0 <= i < j < k + 1 implies walk_cell(layout@, i) != walk_cell(layout@, j) by {
                if j == k {
                    assert(!visited@.contains(pos@));
                }
            }
        }
    }
    proof {
        lemma_walk_cell_bounded(layout@, k as int);
    }
    let last = get_next_grid_position(pos, dir);
    let last_dir = get_exit_direction(dir, layout[k]);
    assert(last@ == walk_cell(layout@, n as int));
    assert(last_dir == walk_direction(layout@, n as int));
    if last.x != 0 || last.y != 0 {
        return Err(InvalidTrack::NotClosed);
    }
    match last_dir {
        Direction::Up => Ok(()),
        _ => Err(InvalidTrack::WrongExitDirection),
    }
}

impl Track {
    /// A track is valid when its layout is a closed loop that is not too
    /// long.
    pub open spec fn is_valid(&self) -> bool {
        layout_verdict(self.layout@) is Ok
    }

    /// The track of a layout from a starting point, if the layout is a
    /// closed loop that is not too long; else what is wrong with the layout.
    pub fn new(layout: Vec<RoadSegmentType>, starting_point: Vec2) -> (track: Result<Track, InvalidTrack>)
        ensures
            track is Ok <==> is_closed_loop(layout@) && layout@.len() <= MAX_LAYOUT_LEN,
            track matches Ok(t) ==> t.layout@ == layout@ && t.starting_point == starting_point
                && t.is_valid(),
            track matches Err(error) ==> layout_verdict(layout@) == Err::<(), InvalidTrack>(error),
    {
        match validate_layout(&layout) {
            Ok(()) => Ok(Track { layout, starting_point }),
            Err(error) => Err(error),
        }
    }
}

} // verus!
