//! What the generator's search keeps true of the walk built so far, and why a
//! walk that it closes is a circuit.

use vstd::prelude::*;
use crate::road::components::{Direction, RoadSegmentType};
use crate::road::helpers::exit_direction;
use crate::road::layout::{is_closed_loop, next_cell, walk_cell, walk_direction, walk_is_simple};

verus! {

/// Two cells that share an edge.
pub open spec fn are_adjacent(a: (int, int), b: (int, int)) -> bool {
    ||| a.0 == b.0 && (a.1 == b.1 + 1 || a.1 == b.1 - 1)
    ||| a.1 == b.1 && (a.0 == b.0 + 1 || a.0 == b.0 - 1)
}

/// Whether `cell` lies on the grid that reaches `half_width` cells to the left
/// and right of the origin and `half_height` cells above and below it.
pub open spec fn in_bounds(cell: (int, int), half_width: int, half_height: int) -> bool {
    &&& -half_width <= cell.0 <= half_width
    &&& -half_height <= cell.1 <= half_height
}

/// A visited neighbour stands in the way of a new cell unless it is the cell
/// that the walk comes from, or the origin.
pub open spec fn neighbour_blocks(
    neighbour: (int, int),
    previous: (int, int),
    visited: Set<(int, int)>,
) -> bool {
    neighbour != previous && neighbour != (0int, 0int) && visited.contains(neighbour)
}

/// Whether a road on `pos` would run beside a road that is already there.
pub open spec fn has_adjacent_cell(
    pos: (int, int),
    previous: (int, int),
    visited: Set<(int, int)>,
) -> bool {
    ||| neighbour_blocks((pos.0 + 1, pos.1), previous, visited)
    ||| neighbour_blocks((pos.0 - 1, pos.1), previous, visited)
    ||| neighbour_blocks((pos.0, pos.1 + 1), previous, visited)
    ||| neighbour_blocks((pos.0, pos.1 - 1), previous, visited)
}

/// Whether the walk may go on from `current` in direction `dir`: the next cell
/// is on the grid, is new (or the origin), and touches no other road.
pub open spec fn move_is_allowed(
    current: (int, int),
    dir: Direction,
    visited: Set<(int, int)>,
    half_width: int,
    half_height: int,
) -> bool {
    let next = next_cell(current, dir);
    &&& in_bounds(next, half_width, half_height)
    &&& !(visited.contains(next) && next != (0int, 0int))
    &&& !has_adjacent_cell(next, current, visited)
}

/// A neighbour of the origin does not stand in the way of closing the loop if
/// it is free, is the cell that the walk arrives from, or is the first cell
/// above the origin, where every walk starts.
pub open spec fn neighbour_allows_closing(
    neighbour: (int, int),
    current: (int, int),
    visited: Set<(int, int)>,
) -> bool {
    neighbour == current || neighbour == (0int, 1int) || !visited.contains(neighbour)
}

/// Whether the origin can be entered from `current` without running beside
/// another road.
pub open spec fn origin_is_free(current: (int, int), visited: Set<(int, int)>) -> bool {
    &&& neighbour_allows_closing((0int, 1int), current, visited)
    &&& neighbour_allows_closing((0int, -1int), current, visited)
    &&& neighbour_allows_closing((1int, 0int), current, visited)
    &&& neighbour_allows_closing((-1int, 0int), current, visited)
}

/// The kind of segment that turns `dir` into up: the first of straight, left
/// and right that does.
pub open spec fn kind_turning_up(dir: Direction) -> Option<RoadSegmentType> {
    if exit_direction(dir, RoadSegmentType::Straight) == Direction::Up {
        Some(RoadSegmentType::Straight)
    } else if exit_direction(dir, RoadSegmentType::CornerLeft) == Direction::Up {
        Some(RoadSegmentType::CornerLeft)
    } else if exit_direction(dir, RoadSegmentType::CornerRight) == Direction::Up {
        Some(RoadSegmentType::CornerRight)
    } else {
        None
    }
}

/// The segment that closes the loop from `current` heading `dir`, if there is
/// one: the next cell is the origin, the origin is free, and a kind of segment
/// leaves it heading up.
pub open spec fn closing_segment(
    current: (int, int),
    dir: Direction,
    visited: Set<(int, int)>,
) -> Option<RoadSegmentType> {
    if next_cell(current, dir) != (0int, 0int) {
        None
    } else if !origin_is_free(current, visited) {
        None
    } else {
        kind_turning_up(dir)
    }
}

/// Every cell of the walk, the last one included, lies on the grid.
pub open spec fn walk_within_bounds(
    layout: Seq<RoadSegmentType>,
    half_width: int,
    half_height: int,
) -> bool {
    forall|i: int|
        0 <= i <= layout.len() ==> in_bounds(#[trigger] walk_cell(layout, i), half_width, half_height)
}

/// No two roads of a circuit run side by side: cells that share an edge
/// follow each other on the circuit.
pub open spec fn roads_keep_apart(layout: Seq<RoadSegmentType>) -> bool {
    forall|i: int, j: int|
        0 <= i < j < layout.len() && are_adjacent(
            #[trigger] walk_cell(layout, i),
            #[trigger] walk_cell(layout, j),
        ) ==> j == i + 1 || (i == 0 && j == layout.len() - 1)
}

/// The larger of two integers.
pub open spec fn max_int(a: int, b: int) -> int {
    if a >= b {
        a
    } else {
        b
    }
}

/// What the search keeps true between its steps, of the layout placed so far
/// and of the set of cells that it has marked.
pub open spec fn search_invariant(
    layout: Seq<RoadSegmentType>,
    visited: Set<(int, int)>,
    half_width: int,
    half_height: int,
) -> bool {
    let n = layout.len() as int;
    &&& n >= 2
    &&& layout[0] == RoadSegmentType::Straight
    &&& layout[1] == RoadSegmentType::Straight
    &&& n > 2 ==> half_width >= 0 && half_height >= 3
    &&& forall|c: (int, int)|
        visited.contains(c) <==> exists|i: int| 0 <= i <= n && #[trigger] walk_cell(layout, i) == c
    &&& walk_is_simple(layout, n + 1)
    &&& walk_within_bounds(layout, max_int(half_width, 0), max_int(half_height, 2))
    &&& forall|i: int, j: int|
        0 <= i < j <= n && are_adjacent(#[trigger] walk_cell(layout, i), #[trigger] walk_cell(layout, j))
            ==> j == i + 1 || i == 0
}

/// The walk over the first `k` segments depends on those segments only.
pub proof fn lemma_walk_prefix(a: Seq<RoadSegmentType>, b: Seq<RoadSegmentType>, k: int)
    requires
        0 <= k <= a.len(),
        k <= b.len(),
        forall|i: int| 0 <= i < k ==> a[i] == b[i],
    ensures
        walk_cell(a, k) == walk_cell(b, k),
        walk_direction(a, k) == walk_direction(b, k),
    decreases k,
{
    if k > 0 {
        lemma_walk_prefix(a, b, k - 1);
    }
}

/// Appending a segment leaves the walk so far as it was, and adds one step.
pub proof fn lemma_walk_push(layout: Seq<RoadSegmentType>, kind: RoadSegmentType)
    ensures
        forall|i: int|
            0 <= i <= layout.len() ==> #[trigger] walk_cell(layout.push(kind), i) == walk_cell(layout, i),
        forall|i: int|
            0 <= i <= layout.len() ==> #[trigger] walk_direction(layout.push(kind), i) == walk_direction(
                layout,
                i,
            ),
        walk_cell(layout.push(kind), layout.len() as int + 1) == next_cell(
            walk_cell(layout, layout.len() as int),
            walk_direction(layout, layout.len() as int),
        ),
        walk_direction(layout.push(kind), layout.len() as int + 1) == exit_direction(
            walk_direction(layout, layout.len() as int),
            kind,
        ),
{
    let longer = layout.push(kind);
    assert forall|i: int| 0 <= i <= layout.len() implies #[trigger] walk_cell(longer, i) == walk_cell(
        layout,
        i,
    ) by {
        lemma_walk_prefix(layout, longer, i);
    }
    assert forall|i: int| 0 <= i <= layout.len() implies #[trigger] walk_direction(longer, i)
        == walk_direction(layout, i) by {
        lemma_walk_prefix(layout, longer, i);
    }
    assert(longer[layout.len() as int] == kind);
    assert(walk_cell(longer, layout.len() as int) == walk_cell(layout, layout.len() as int));
    assert(walk_direction(longer, layout.len() as int) == walk_direction(layout, layout.len() as int));
}

/// Dropping the last segment leaves the walk before it as it was.
pub proof fn lemma_walk_drop_last(layout: Seq<RoadSegmentType>)
    requires
        layout.len() > 0,
    ensures
        forall|i: int|
            0 <= i < layout.len() ==> #[trigger] walk_cell(layout.drop_last(), i) == walk_cell(layout, i),
        forall|i: int|
            0 <= i < layout.len() ==> #[trigger] walk_direction(layout.drop_last(), i) == walk_direction(
                layout,
                i,
            ),
{
    let shorter = layout.drop_last();
    assert forall|i: int| 0 <= i < layout.len() implies #[trigger] walk_cell(shorter, i) == walk_cell(
        layout,
        i,
    ) by {
        lemma_walk_prefix(layout, shorter, i);
    }
    assert forall|i: int| 0 <= i < layout.len() implies #[trigger] walk_direction(shorter, i)
        == walk_direction(layout, i) by {
        lemma_walk_prefix(layout, shorter, i);
    }
}

/// A walk that starts with two straight segments goes up the first column.
pub proof fn lemma_walk_start(layout: Seq<RoadSegmentType>)
    requires
        layout.len() >= 2,
        layout[0] == RoadSegmentType::Straight,
        layout[1] == RoadSegmentType::Straight,
    ensures
        walk_cell(layout, 0) == (0int, 0int),
        walk_cell(layout, 1) == (0int, 1int),
        walk_cell(layout, 2) == (0int, 2int),
        walk_cell(layout, 3) == (0int, 3int),
        walk_direction(layout, 0) == Direction::Up,
        walk_direction(layout, 1) == Direction::Up,
        walk_direction(layout, 2) == Direction::Up,
{
    reveal_with_fuel(walk_cell, 4);
    reveal_with_fuel(walk_direction, 4);
}

/// The search starts from two straight segments and the three cells that
/// they pass.
pub proof fn lemma_search_start(
    layout: Seq<RoadSegmentType>,
    visited: Set<(int, int)>,
    half_width: int,
    half_height: int,
)
    requires
        layout == seq![RoadSegmentType::Straight, RoadSegmentType::Straight],
        visited == Set::<(int, int)>::empty().insert((0int, 0int)).insert((0int, 1int)).insert(
            (0int, 2int),
        ),
    ensures
        search_invariant(layout, visited, half_width, half_height),
{
    lemma_walk_start(layout);
    assert forall|c: (int, int)| visited.contains(c) <==> exists|i: int|
        0 <= i <= 2 && #[trigger] walk_cell(layout, i) == c by {
        if visited.contains(c) {
            if c == (0int, 0int) {
                assert(walk_cell(layout, 0) == c);
            } else if c == (0int, 1int) {
                assert(walk_cell(layout, 1) == c);
            } else {
                assert(walk_cell(layout, 2) == c);
            }
        }
    }
}

/// While the walk has not closed, the cell ahead of it is never the origin:
/// the first cell above the origin would then run beside the new road.
pub proof fn lemma_move_avoids_origin(
    layout: Seq<RoadSegmentType>,
    visited: Set<(int, int)>,
    half_width: int,
    half_height: int,
)
    requires
        search_invariant(layout, visited, half_width, half_height),
        move_is_allowed(
            walk_cell(layout, layout.len() as int),
            walk_direction(layout, layout.len() as int),
            visited,
            half_width,
            half_height,
        ),
    ensures
        next_cell(walk_cell(layout, layout.len() as int), walk_direction(layout, layout.len() as int)) != (
            0int,
            0int,
        ),
{
    let n = layout.len() as int;
    lemma_walk_start(layout);
    assert(walk_cell(layout, 1) == (0int, 1int));
    assert(visited.contains((0int, 1int)));
    assert(walk_cell(layout, 1) != walk_cell(layout, n));
}

/// One more segment on an allowed move keeps the search's invariant.
pub proof fn lemma_search_extend(
    layout: Seq<RoadSegmentType>,
    kind: RoadSegmentType,
    visited: Set<(int, int)>,
    half_width: int,
    half_height: int,
)
    requires
        search_invariant(layout, visited, half_width, half_height),
        move_is_allowed(
            walk_cell(layout, layout.len() as int),
            walk_direction(layout, layout.len() as int),
            visited,
            half_width,
            half_height,
        ),
    ensures
        search_invariant(
            layout.push(kind),
            visited.insert(
                next_cell(
                    walk_cell(layout, layout.len() as int),
                    walk_direction(layout, layout.len() as int),
                ),
            ),
            half_width,
            half_height,
        ),
{
    let n = layout.len() as int;
    let longer = layout.push(kind);
    let current = walk_cell(layout, n);
    let next = next_cell(current, walk_direction(layout, n));
    let marked = visited.insert(next);
    lemma_walk_push(layout, kind);
    lemma_walk_start(layout);
    lemma_move_avoids_origin(layout, visited, half_width, half_height);
    assert(walk_cell(longer, n + 1) == next);
    assert(!visited.contains(next));
    assert(n == 2 ==> next == (0int, 3int));

    assert forall|c: (int, int)| marked.contains(c) <==> exists|i: int|
        0 <= i <= n + 1 && #[trigger] walk_cell(longer, i) == c by {
        if marked.contains(c) {
            if c == next {
                assert(walk_cell(longer, n + 1) == c);
            } else {
                let i = choose|i: int| 0 <= i <= n && #[trigger] walk_cell(layout, i) == c;
                assert(walk_cell(longer, i) == c);
            }
        }
        if exists|i: int| 0 <= i <= n + 1 && #[trigger] walk_cell(longer, i) == c {
            let i = choose|i: int| 0 <= i <= n + 1 && #[trigger] walk_cell(longer, i) == c;
            if i <= n {
                assert(walk_cell(layout, i) == c);
            }
        }
    }
    assert forall|i: int, j: int| 0 <= i < j < n + 2 implies walk_cell(longer, i) != walk_cell(
        longer,
        j,
    ) by {
        if j == n + 1 {
            assert(walk_cell(layout, i) == walk_cell(longer, i));
        }
    }
    assert forall|i: int| 0 <= i <= longer.len() implies in_bounds(
        #[trigger] walk_cell(longer, i),
        max_int(half_width, 0),
        max_int(half_height, 2),
    ) by {
        if i <= n {
            assert(walk_cell(layout, i) == walk_cell(longer, i));
        }
    }
    assert forall|i: int, j: int|
        0 <= i < j <= n + 1 && are_adjacent(
            #[trigger] walk_cell(longer, i),
            #[trigger] walk_cell(longer, j),
        ) implies j == i + 1 || i == 0 by {
        if j == n + 1 {
            let c = walk_cell(longer, i);
            assert(walk_cell(layout, i) == c);
            assert(visited.contains(c));
            if c != current && c != (0int, 0int) {
                assert(neighbour_blocks(c, current, visited));
                assert(c == (next.0 + 1, next.1) || c == (next.0 - 1, next.1) || c == (next.0, next.1 + 1)
                    || c == (next.0, next.1 - 1));
                assert(has_adjacent_cell(next, current, visited));
            }
            if c == current && i != n {
                assert(walk_cell(layout, i) != walk_cell(layout, n));
            }
            if c == (0int, 0int) && i != 0 {
                assert(walk_cell(layout, 0) != walk_cell(layout, i));
            }
        } else {
            assert(walk_cell(layout, i) == walk_cell(longer, i));
            assert(walk_cell(layout, j) == walk_cell(longer, j));
        }
    }
}

/// Taking the last segment back, and its cell out of the marked cells, keeps
/// the search's invariant, as long as the two first segments stay.
pub proof fn lemma_search_retract(
    layout: Seq<RoadSegmentType>,
    visited: Set<(int, int)>,
    half_width: int,
    half_height: int,
)
    requires
        search_invariant(layout, visited, half_width, half_height),
        layout.len() > 2,
    ensures
        search_invariant(
            layout.drop_last(),
            visited.remove(walk_cell(layout, layout.len() as int)),
            half_width,
            half_height,
        ),
{
    let n = layout.len() as int;
    let shorter = layout.drop_last();
    let last = walk_cell(layout, n);
    let marked = visited.remove(last);
    lemma_walk_drop_last(layout);
    assert forall|c: (int, int)| marked.contains(c) <==> exists|i: int|
        0 <= i <= n - 1 && #[trigger] walk_cell(shorter, i) == c by {
        if marked.contains(c) {
            let i = choose|i: int| 0 <= i <= n && #[trigger] walk_cell(layout, i) == c;
            assert(walk_cell(shorter, i) == c);
        }
        if exists|i: int| 0 <= i <= n - 1 && #[trigger] walk_cell(shorter, i) == c {
            let i = choose|i: int| 0 <= i <= n - 1 && #[trigger] walk_cell(shorter, i) == c;
            assert(walk_cell(layout, i) == c);
            assert(walk_cell(layout, i) != walk_cell(layout, n));
        }
    }
    assert forall|i: int, j: int| 0 <= i < j < n implies walk_cell(shorter, i) != walk_cell(
        shorter,
        j,
    ) by {
        assert(walk_cell(layout, i) == walk_cell(shorter, i));
        assert(walk_cell(layout, j) == walk_cell(shorter, j));
    }
    assert forall|i: int| 0 <= i <= shorter.len() implies in_bounds(
        #[trigger] walk_cell(shorter, i),
        max_int(half_width, 0),
        max_int(half_height, 2),
    ) by {
        assert(walk_cell(layout, i) == walk_cell(shorter, i));
    }
    assert forall|i: int, j: int|
        0 <= i < j <= n - 1 && are_adjacent(
            #[trigger] walk_cell(shorter, i),
            #[trigger] walk_cell(shorter, j),
        ) implies j == i + 1 || i == 0 by {
        assert(walk_cell(layout, i) == walk_cell(shorter, i));
        assert(walk_cell(layout, j) == walk_cell(shorter, j));
    }
}

/// A walk that the search closes is a circuit on the grid whose roads keep
/// apart.
pub proof fn lemma_search_close(
    layout: Seq<RoadSegmentType>,
    kind: RoadSegmentType,
    visited: Set<(int, int)>,
    half_width: int,
    half_height: int,
)
    requires
        search_invariant(layout, visited, half_width, half_height),
        closing_segment(
            walk_cell(layout, layout.len() as int),
            walk_direction(layout, layout.len() as int),
            visited,
        ) == Some(kind),
    ensures
        is_closed_loop(layout.push(kind)),
        walk_within_bounds(layout.push(kind), half_width, half_height),
        roads_keep_apart(layout.push(kind)),
{
    let n = layout.len() as int;
    let closed = layout.push(kind);
    let current = walk_cell(layout, n);
    lemma_walk_push(layout, kind);
    lemma_walk_start(layout);
    assert(walk_cell(closed, n + 1) == (0int, 0int));
    assert(walk_direction(closed, n + 1) == Direction::Up);
    assert(n > 2);
    assert forall|i: int, j: int| 0 <= i < j < n + 1 implies walk_cell(closed, i) != walk_cell(
        closed,
        j,
    ) by {
        assert(walk_cell(layout, i) == walk_cell(closed, i));
        assert(walk_cell(layout, j) == walk_cell(closed, j));
    }
    assert forall|i: int| 0 <= i <= closed.len() implies in_bounds(
        #[trigger] walk_cell(closed, i),
        half_width,
        half_height,
    ) by {
        if i <= n {
            assert(walk_cell(layout, i) == walk_cell(closed, i));
        }
    }
    assert forall|i: int, j: int|
        0 <= i < j < closed.len() && are_adjacent(
            #[trigger] walk_cell(closed, i),
            #[trigger] walk_cell(closed, j),
        ) implies j == i + 1 || (i == 0 && j == closed.len() - 1) by {
        assert(walk_cell(layout, i) == walk_cell(closed, i));
        assert(walk_cell(layout, j) == walk_cell(closed, j));
        if i == 0 && j != 1 {
            let c = walk_cell(layout, j);
            assert(visited.contains(c));
            assert(c == (0int, 1int) || c == (0int, -1int) || c == (1int, 0int) || c == (-1int, 0int));
            assert(neighbour_allows_closing(c, current, visited));
            assert(walk_cell(layout, 1) != walk_cell(layout, j));
            if j != n {
                assert(walk_cell(layout, j) != walk_cell(layout, n));
            }
        }
    }
}

} // verus!
