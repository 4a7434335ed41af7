//! Construction of a fresh walled board.

use crate::cell::CellContents;
use crate::grid::Grid;
use vstd::prelude::*;

verus! {

/// `(x, y)` lies on the outer ring of a `w` × `h` board.
pub open spec fn on_border(x: int, y: int, w: int, h: int) -> bool {
    x == 0 || x == w - 1 || y == 0 || y == h - 1
}

/// `(x, y)` lies strictly inside the outer ring of a `w` × `h` board.
pub open spec fn is_interior(x: int, y: int, w: int, h: int) -> bool {
    1 <= x <= w - 2 && 1 <= y <= h - 2
}

/// The state of cell `(x, y)` on a freshly built `w` × `h` board.
pub open spec fn world_cell(x: int, y: int, w: int, h: int) -> CellContents {
    if on_border(x, y, w, h) {
        CellContents::Wall
    } else {
        CellContents::Empty
    }
}

/// A `width` × `height` board whose outer ring is wall and whose interior is empty.
pub fn build_world(width: usize, height: usize) -> (g: Grid<CellContents>)
    requires
        width >= 3,
        height >= 3,
    ensures
        g.wf(),
        g.spec_width() == width,
        g.spec_height() == height,
        forall|x: int, y: int|
            #![trigger g.cell(x, y)]
            g.in_bounds(x, y) ==> g.cell(x, y) == world_cell(x, y, width as int, height as int),
{
    let mut grid = Grid::new(width, height, CellContents::Empty);
    let mut x: usize = 0;
    while x < width
        invariant
            grid.wf(),
            grid.spec_width() == width,
            grid.spec_height() == height,
            height >= 3,
            x <= width,
            forall|i: int, j: int|
                #![trigger grid.cell(i, j)]
                grid.in_bounds(i, j) ==> grid.cell(i, j) == if i < x && (j == 0 || j == height - 1) {
                    CellContents::Wall
                } else {
                    CellContents::Empty
                },
        decreases width - x,
    {
        *grid.get_mut(x, 0) = CellContents::Wall;
        *grid.get_mut(x, height - 1) = CellContents::Wall;
        x += 1;
    }
    let mut y: usize = 0;
    while y < height
        invariant
            grid.wf(),
            grid.spec_width() == width,
            grid.spec_height() == height,
            width >= 3,
            y <= height,
            forall|i: int, j: int|
                #![trigger grid.cell(i, j)]
                grid.in_bounds(i, j) ==> grid.cell(i, j) == if (j == 0 || j == height - 1) || (j < y
                    && (i == 0 || i == width - 1)) {
                    CellContents::Wall
                } else {
                    CellContents::Empty
                },
        decreases height - y,
    {
        *grid.get_mut(0, y) = CellContents::Wall;
        *grid.get_mut(width - 1, y) = CellContents::Wall;
        y += 1;
    }
    grid
}

} // verus!
