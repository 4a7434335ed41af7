//! What a single grid cell holds.

use vstd::prelude::*;

verus! {

/// The occupancy of one grid cell.
#[derive(Clone, Copy, Debug, PartialEq, Eq, Structural)]
pub enum CellContents {
    Empty,
    Snake,
    Wall,
    Food,
}

impl CellContents {
    /// Moving the head onto a cell in this state ends the round.
    pub open spec fn spec_blocks(self) -> bool {
        self == CellContents::Snake || self == CellContents::Wall
    }

    pub fn blocks(self) -> (r: bool)
        ensures
            r == self.spec_blocks(),
    {
        matches!(self, CellContents::Snake | CellContents::Wall)
    }
}

} // verus!
