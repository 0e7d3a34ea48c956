use std::collections::HashSet;
use vstd::prelude::*;
use crate::road::components::GridPos;

verus! {

/// The number under which a cell is kept: its two coordinates, each shifted into
/// the non-negative range, side by side.
pub open spec fn cell_key(cell: (int, int)) -> int {
    (cell.0 + 0x8000_0000) * 0x1_0000_0000 + (cell.1 + 0x8000_0000)
}

/// Whether both coordinates of a cell fit the grid's coordinate type.
pub open spec fn is_grid_cell(cell: (int, int)) -> bool {
    &&& i32::MIN <= cell.0 <= i32::MAX
    &&& i32::MIN <= cell.1 <= i32::MAX
}

/// Two grid cells with the same key are the same cell.
pub proof fn lemma_cell_key_injective(a: (int, int), b: (int, int))
    requires
        is_grid_cell(a),
        is_grid_cell(b),
        cell_key(a) == cell_key(b),
    ensures
        a == b,
{
}

/// A set of grid cells: the cells that a walk has occupied so far.
pub struct CellSet {
    keys: HashSet<u64>,
}

impl View for CellSet {
    type V = Set<(int, int)>;

    closed spec fn view(&self) -> Set<(int, int)> {
        Set::new(|cell: (int, int)| is_grid_cell(cell) && self.keys@.contains(cell_key(cell) as u64))
    }
}

impl CellSet {
    /// The empty set.
    pub fn new() -> (set: CellSet)
        ensures
            set@ == Set::<(int, int)>::empty(),
    {
        let set = CellSet { keys: HashSet::new() };
        assert(set@ =~= Set::<(int, int)>::empty());
        set
    }

    fn key_of(pos: GridPos) -> (key: u64)
        ensures
            key == cell_key(pos@),
    {
        let x: u64 = (pos.x as i64 + 0x8000_0000i64) as u64;
        let y: u64 = (pos.y as i64 + 0x8000_0000i64) as u64;
        x * 0x1_0000_0000u64 + y
    }

    /// Whether `pos` is in the set.
    pub fn contains(&self, pos: GridPos) -> (found: bool)
        ensures
            found == self@.contains(pos@),
    {
        let key = Self::key_of(pos);
        self.keys.contains(&key)
    }

    /// Adds `pos` to the set.
    pub fn insert(&mut self, pos: GridPos)
        ensures
            final(self)@ == old(self)@.insert(pos@),
    {
        let key = Self::key_of(pos);
        self.keys.insert(key);
        assert forall|cell: (int, int)| final(self)@.contains(cell) == old(self)@.insert(pos@).contains(cell) by {
            if is_grid_cell(cell) && cell_key(cell) == cell_key(pos@) {
                lemma_cell_key_injective(cell, pos@);
            }
        }
        assert(final(self)@ =~= old(self)@.insert(pos@));
    }

    /// Takes `pos` out of the set.
    pub fn remove(&mut self, pos: GridPos)
        ensures
            final(self)@ == old(self)@.remove(pos@),
    {
        let key = Self::key_of(pos);
        self.keys.remove(&key);
        assert forall|cell: (int, int)| final(self)@.contains(cell) == old(self)@.remove(pos@).contains(cell) by {
            if is_grid_cell(cell) && cell_key(cell) == cell_key(pos@) {
                lemma_cell_key_injective(cell, pos@);
            }
        }
        assert(final(self)@ =~= old(self)@.remove(pos@));
    }
}

} // verus!
