//! A fixed-size two-dimensional store of values, addressed by `(x, y)`.

use vstd::prelude::*;

verus! {

/// Position of cell `(x, y)` in a column-major walk of a grid of height `h`.
pub open spec fn flat_index(x: int, y: int, h: int) -> int {
    x * h + y
}

proof fn lemma_flat_index_below(i: int, j: int, x: int, h: int)
    requires
        0 <= i < x,
        0 <= j < h,
    ensures
        0 <= flat_index(i, j, h) < x * h,
{
    assert(0 <= i * h + j < x * h) by (nonlinear_arith)
        requires
            0 <= i < x,
            0 <= j < h,
    ;
}

proof fn lemma_next_column(x: int, h: int)
    ensures
        (x + 1) * h == x * h + h,
{
    assert((x + 1) * h == x * h + h) by (nonlinear_arith);
}

/// A width × height grid of values; column `x` holds the cells `(x, 0..height)`.
pub struct Grid<T> {
    values: Vec<Vec<T>>,
    height: usize,
}

impl<T> Grid<T> {
    pub closed spec fn spec_width(&self) -> nat {
        self.values@.len()
    }

    pub closed spec fn spec_height(&self) -> nat {
        self.height as nat
    }

    /// The value stored at `(x, y)`.
    pub closed spec fn cell(&self, x: int, y: int) -> T {
        self.values@[x]@[y]
    }

    /// Every column has the grid's height, and the width fits in a `usize`.
    pub closed spec fn wf(&self) -> bool {
        &&& self.values@.len() <= usize::MAX
        &&& forall|x: int| 0 <= x < self.values@.len() ==> #[trigger] self.values@[x]@.len() == self.height
    }

    /// Both dimensions of a well-formed grid fit in a `usize`.
    pub proof fn lemma_dims_fit(&self)
        requires
            self.wf(),
        ensures
            self.spec_width() <= usize::MAX,
            self.spec_height() <= usize::MAX,
    {
    }

    pub open spec fn in_bounds(&self, x: int, y: int) -> bool {
        0 <= x < self.spec_width() && 0 <= y < self.spec_height()
    }

    /// The value at `(x, y)`.
    pub fn get(&self, x: usize, y: usize) -> (r: &T)
        requires
            self.wf(),
            self.in_bounds(x as int, y as int),
        ensures
            *r == self.cell(x as int, y as int),
    {
        &self.values[x][y]
    }

    /// A mutable handle on the value at `(x, y)`; no other cell changes.
    pub fn get_mut(&mut self, x: usize, y: usize) -> (r: &mut T)
        requires
            old(self).wf(),
            old(self).in_bounds(x as int, y as int),
        ensures
            *r == old(self).cell(x as int, y as int),
            final(self).wf(),
            final(self).spec_width() == old(self).spec_width(),
            final(self).spec_height() == old(self).spec_height(),
            final(self).cell(x as int, y as int) == *final(r),
            forall|i: int, j: int|
                #![trigger final(self).cell(i, j)]
                final(self).in_bounds(i, j) && (i != x || j != y) ==> final(self).cell(i, j)
                    == old(self).cell(i, j),
    {
        &mut self.values[x][y]
    }

    pub fn width(&self) -> (r: usize)
        ensures
            r == self.spec_width(),
    {
        self.values.len()
    }

    pub fn height(&self) -> (r: usize)
        ensures
            r == self.spec_height(),
    {
        self.height
    }
}

impl<T: Copy> Grid<T> {
    /// A `width` × `height` grid with every cell set to `init`.
    pub fn new(width: usize, height: usize, init: T) -> (g: Self)
        ensures
            g.wf(),
            g.spec_width() == width,
            g.spec_height() == height,
            forall|x: int, y: int| #[trigger] g.in_bounds(x, y) ==> g.cell(x, y) == init,
    {
        let mut values: Vec<Vec<T>> = Vec::new();
        let mut x: usize = 0;
        while x < width
            invariant
                x <= width,
                values@.len() == x,
                forall|i: int| 0 <= i < x ==> #[trigger] values@[i]@.len() == height,
                forall|i: int, j: int| 0 <= i < x && 0 <= j < height ==> values@[i]@[j] == init,
            decreases width - x,
        {
            let mut column: Vec<T> = Vec::new();
            let mut y: usize = 0;
            while y < height
                invariant
                    y <= height,
                    column@.len() == y,
                    forall|j: int| 0 <= j < y ==> column@[j] == init,
                decreases height - y,
            {
                column.push(init);
                y += 1;
            }
            values.push(column);
            x += 1;
        }
        Grid { values, height }
    }

    /// Every cell with its coordinates, column by column: the cell `(x, y)`
    /// stands at `flat_index(x, y, height)`.
    pub fn enumerate(&self) -> (r: Vec<(usize, usize, T)>)
        requires
            self.wf(),
        ensures
            r@.len() == self.spec_width() * self.spec_height(),
            forall|x: int, y: int|
                #![trigger flat_index(x, y, self.spec_height() as int)]
                self.in_bounds(x, y) ==> r@[flat_index(x, y, self.spec_height() as int)] == (
                x as usize,
                y as usize,
                self.cell(x, y),
            ),
    {
        let ghost h = self.height as int;
        let mut r: Vec<(usize, usize, T)> = Vec::new();
        let mut x: usize = 0;
        while x < self.values.len()
            invariant
                self.wf(),
                h == self.spec_height(),
                x <= self.spec_width(),
                r@.len() == x * h,
                forall|i: int, j: int|
                    #![trigger flat_index(i, j, h)]
                    0 <= i < x && 0 <= j < h ==> r@[flat_index(i, j, h)] == (
                    i as usize,
                    j as usize,
                    self.cell(i, j),
                ),
            decreases self.spec_width() - x,
        {
            let mut y: usize = 0;
            while y < self.height
                invariant
                    self.wf(),
                    h == self.spec_height(),
                    x < self.spec_width(),
                    y <= h,
                    r@.len() == x * h + y,
                    forall|i: int, j: int|
                        #![trigger flat_index(i, j, h)]
                        (0 <= i < x && 0 <= j < h) || (i == x && 0 <= j < y) ==> r@[flat_index(
                            i,
                            j,
                            h,
                        )] == (i as usize, j as usize, self.cell(i, j)),
                decreases h - y,
            {
                let ghost before = r@;
                r.push((x, y, self.values[x][y]));
                assert forall|i: int, j: int|
                    #![trigger flat_index(i, j, h)]
                    (0 <= i < x && 0 <= j < h) || (i == x && 0 <= j < y + 1) implies r@[flat_index(
                        i,
                        j,
                        h,
                    )] == (i as usize, j as usize, self.cell(i, j)) by {
                    if i < x {
                        lemma_flat_index_below(i, j, x as int, h);
                        assert(r@[flat_index(i, j, h)] == before[flat_index(i, j, h)]);
                    } else if j < y {
                        assert(r@[flat_index(i, j, h)] == before[flat_index(i, j, h)]);
                    }
                }
                y += 1;
            }
            proof {
                lemma_next_column(x as int, h);
            }
            x += 1;
        }
        r
    }
}

} // verus!
