//! Grid coordinates and the four headings the snake can take.

use vstd::prelude::*;

verus! {

/// One of the four axis-aligned headings.
#[derive(Clone, Copy, Debug, PartialEq, Eq, Structural)]
pub enum Direction {
    Up,
    Down,
    Left,
    Right,
}

impl Direction {
    /// The unit step of this heading: `Up` is `(0, +1)`, `Down` is `(0, -1)`,
    /// `Left` is `(-1, 0)` and `Right` is `(+1, 0)`.
    pub open spec fn delta(self) -> (int, int) {
        match self {
            Direction::Up => (0, 1),
            Direction::Down => (0, -1),
            Direction::Left => (-1, 0),
            Direction::Right => (1, 0),
        }
    }

    pub open spec fn spec_opposite(self) -> Direction {
        match self {
            Direction::Up => Direction::Down,
            Direction::Down => Direction::Up,
            Direction::Left => Direction::Right,
            Direction::Right => Direction::Left,
        }
    }

    /// The heading that points the other way.
    pub fn opposite(self) -> (r: Direction)
        ensures
            r == self.spec_opposite(),
            r.delta().0 == -self.delta().0,
            r.delta().1 == -self.delta().1,
    {
        match self {
            Direction::Up => Direction::Down,
            Direction::Down => Direction::Up,
            Direction::Left => Direction::Right,
            Direction::Right => Direction::Left,
        }
    }
}

/// A grid coordinate `(x, y)`.
#[derive(Clone, Copy, Debug, PartialEq, Eq, Structural)]
pub struct Position(pub usize, pub usize);

impl Position {
    /// The coordinate one step away in `dir`, as integers.
    pub open spec fn spec_next(self, dir: Direction) -> (int, int) {
        (self.0 + dir.delta().0, self.1 + dir.delta().1)
    }

    /// The step in `dir` stays within the range of `usize`.
    pub open spec fn can_step(self, dir: Direction) -> bool {
        let n = self.spec_next(dir);
        0 <= n.0 <= usize::MAX && 0 <= n.1 <= usize::MAX
    }

    /// The position one step away in `dir`.
    pub fn get_next_position(&self, dir: Direction) -> (r: Self)
        requires
            self.can_step(dir),
        ensures
            r.0 == self.spec_next(dir).0,
            r.1 == self.spec_next(dir).1,
    {
        let Position(x, y) = *self;
        match dir {
            Direction::Up => Position(x, y + 1),
            Direction::Down => Position(x, y - 1),
            Direction::Left => Position(x - 1, y),
            Direction::Right => Position(x + 1, y),
        }
    }
}

} // verus!
