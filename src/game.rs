//! The snake engine: one round's board, body, heading and food, advanced one
//! tick at a time.

use crate::cell::CellContents;
use crate::constants::{FOOD_DRAW_ATTEMPTS, INITIAL_DIRECTION, INITIAL_LENGTH, INITIAL_SNAKE_X, SNAKE_GROWTH_RATE};
use crate::grid::Grid;
use crate::position::{Direction, Position};
use crate::random::next_random;
use crate::score::Score;
use crate::world::{build_world, is_interior, on_border, world_cell};
use std::collections::VecDeque;
use vstd::prelude::*;

verus! {

/// What one tick did.
#[derive(Clone, Copy, Debug, PartialEq, Eq, Structural)]
pub enum TickOutcome {
    /// The head moved onto an empty cell.
    Continued,
    /// The head moved onto the food, which was eaten.
    AteFood,
    /// The head ran into a wall or into the body; the round is over.
    GameOver,
}

/// Why a round could not be set up.
#[derive(Clone, Copy, Debug, PartialEq, Eq, Structural)]
pub enum GameError {
    /// Width or height is below 3, which leaves no interior inside the walls.
    GridTooSmall,
}

/// The heading that is pending after `d` is requested while the snake moves
/// along `current` with `next` pending: a reversal is dropped.
pub open spec fn requested_direction(current: Direction, next: Direction, d: Direction) -> Direction {
    if d == current.spec_opposite() {
        next
    } else {
        d
    }
}

/// The cell where the first segment of a round on a `w` × `h` board is placed.
pub open spec fn start_position(w: int, h: int) -> Position {
    Position(
        (if INITIAL_SNAKE_X <= w - 2 {
            INITIAL_SNAKE_X as int
        } else {
            w - 2
        }) as usize,
        (h / 2) as usize,
    )
}

/// The interior cell that the draws `rx` and `ry` pick on a `w` × `h` board.
pub open spec fn food_candidate(rx: u64, ry: u64, w: int, h: int) -> Position {
    Position((rx as int % (w - 2) + 1) as usize, (ry as int % (h - 2) + 1) as usize)
}

/// `after` is `before` with food placed on the empty interior cell `p`, and
/// nothing else changed.
pub open spec fn food_marked(before: Game, after: Game, p: Position) -> bool {
    &&& before.pos_interior(p)
    &&& before.pos_cell(p) == CellContents::Empty
    &&& after.pos_cell(p) == CellContents::Food
    &&& after.spec_food() == Some(p)
    &&& forall|x: int, y: int|
        #![trigger after.spec_grid().cell(x, y)]
        after.in_board(x, y) && (x, y) != (p.0 as int, p.1 as int) ==> after.spec_grid().cell(x, y)
            == before.spec_grid().cell(x, y)
    &&& after.board_width() == before.board_width()
    &&& after.board_height() == before.board_height()
    &&& after.body() == before.body()
    &&& after.spec_head() == before.spec_head()
    &&& after.spec_max_length() == before.spec_max_length()
    &&& after.spec_current_direction() == before.spec_current_direction()
    &&& after.spec_next_direction() == before.spec_next_direction()
    &&& after.spec_over() == before.spec_over()
}

/// What one tick does to the target length and, when it neither ate nor
/// ended the round, to the body length: the body is trimmed to the target and
/// one head is added.
pub open spec fn tick_step(before: Game, after: Game, outcome: TickOutcome) -> bool {
    &&& after.spec_max_length() == if outcome == TickOutcome::AteFood {
        before.spec_max_length() + SNAKE_GROWTH_RATE as int
    } else {
        before.spec_max_length() as int
    }
    &&& outcome == TickOutcome::Continued ==> after.body().len() == if before.body().len()
        > before.spec_max_length() {
        before.spec_max_length() + 1int
    } else {
        before.body().len() + 1int
    }
}

/// How many of `outcomes` ate food.
pub open spec fn count_eaten(outcomes: Seq<TickOutcome>) -> nat
    decreases outcomes.len(),
{
    if outcomes.len() == 0 {
        0
    } else {
        count_eaten(outcomes.drop_last()) + if outcomes.last() == TickOutcome::AteFood {
            1nat
        } else {
            0nat
        }
    }
}

/// `states` is a run of ticks whose outcomes are `outcomes`.
pub open spec fn is_tick_run(states: Seq<Game>, outcomes: Seq<TickOutcome>) -> bool {
    &&& states.len() == outcomes.len() + 1
    &&& forall|i: int|
        0 <= i < outcomes.len() ==> #[trigger] tick_step(states[i], states[i + 1], outcomes[i])
}

/// The state of one round.
pub struct Game {
    grid: Grid<CellContents>,
    max_length: usize,
    current_direction: Direction,
    next_direction: Direction,
    snake: VecDeque<Position>,
    head: Position,
    food: Option<Position>,
    over: bool,
}

impl Game {
    pub closed spec fn spec_grid(&self) -> Grid<CellContents> {
        self.grid
    }

    /// The length the body grows toward.
    pub closed spec fn spec_max_length(&self) -> nat {
        self.max_length as nat
    }

    /// The heading applied on the last tick.
    pub closed spec fn spec_current_direction(&self) -> Direction {
        self.current_direction
    }

    /// The heading the next tick applies.
    pub closed spec fn spec_next_direction(&self) -> Direction {
        self.next_direction
    }

    /// The body, tail first and head last.
    pub closed spec fn body(&self) -> Seq<Position> {
        self.snake@
    }

    pub closed spec fn spec_head(&self) -> Position {
        self.head
    }

    pub closed spec fn spec_food(&self) -> Option<Position> {
        self.food
    }

    /// The round has ended in a collision.
    pub closed spec fn spec_over(&self) -> bool {
        self.over
    }

    pub open spec fn board_width(&self) -> int {
        self.spec_grid().spec_width() as int
    }

    pub open spec fn board_height(&self) -> int {
        self.spec_grid().spec_height() as int
    }

    pub open spec fn in_board(&self, x: int, y: int) -> bool {
        self.spec_grid().in_bounds(x, y)
    }

    pub open spec fn pos_interior(&self, p: Position) -> bool {
        is_interior(p.0 as int, p.1 as int, self.board_width(), self.board_height())
    }

    pub open spec fn pos_cell(&self, p: Position) -> CellContents {
        self.spec_grid().cell(p.0 as int, p.1 as int)
    }

    /// Every interior cell is taken.
    pub open spec fn board_full(&self) -> bool {
        forall|x: int, y: int|
            #![trigger self.spec_grid().cell(x, y)]
            is_interior(x, y, self.board_width(), self.board_height()) ==> self.spec_grid().cell(x, y)
                != CellContents::Empty
    }

    /// The invariant of a round: walls on the border, every body segment an
    /// interior `Snake` cell with no repeats, the body at most one longer than
    /// the target, exactly the food cell holding `Food` (an interior cell),
    /// and no pending reversal. The body may still be empty.
    pub open spec fn board_wf(&self) -> bool {
        let g = self.spec_grid();
        let w = self.board_width();
        let h = self.board_height();
        let b = self.body();
        &&& g.wf()
        &&& 3 <= w <= usize::MAX
        &&& 3 <= h <= usize::MAX
        &&& forall|x: int, y: int|
            #![trigger g.cell(x, y)]
            g.in_bounds(x, y) && on_border(x, y, w, h) ==> g.cell(x, y) == CellContents::Wall
        &&& self.spec_max_length() >= 1
        &&& b.len() <= self.spec_max_length() + 1
        &&& forall|i: int|
            0 <= i < b.len() ==> self.pos_interior(#[trigger] b[i]) && self.pos_cell(b[i])
                == CellContents::Snake
        &&& forall|i: int, j: int| 0 <= i < j < b.len() ==> #[trigger] b[i] != #[trigger] b[j]
        &&& forall|x: int, y: int|
            #![trigger g.cell(x, y)]
            g.in_bounds(x, y) ==> (g.cell(x, y) == CellContents::Food <==> self.spec_food() == Some(
                Position(x as usize, y as usize),
            ))
        &&& self.spec_food() matches Some(p) ==> self.pos_interior(p)
        &&& self.spec_next_direction() != self.spec_current_direction().spec_opposite()
    }

    /// The invariant of a running round: `board_wf` with the snake placed,
    /// its head the last segment.
    pub open spec fn wf(&self) -> bool {
        &&& self.board_wf()
        &&& self.body().len() >= 1
        &&& self.body().last() == self.spec_head()
    }

    /// How many tail segments this tick's trim removes.
    pub open spec fn n_trimmed(&self) -> int {
        if self.body().len() > self.spec_max_length() {
            self.body().len() - self.spec_max_length()
        } else {
            0
        }
    }

    /// The segments the trim removes, tail first.
    pub open spec fn vacated(&self) -> Seq<Position> {
        self.body().subrange(0, self.n_trimmed())
    }

    /// The body after the trim.
    pub open spec fn trimmed_body(&self) -> Seq<Position> {
        self.body().subrange(self.n_trimmed(), self.body().len() as int)
    }

    /// The state of cell `(x, y)` after the trim.
    pub open spec fn cell_after_trim(&self, x: int, y: int) -> CellContents {
        if self.vacated().contains(Position(x as usize, y as usize)) {
            CellContents::Empty
        } else {
            self.spec_grid().cell(x, y)
        }
    }

    /// Where the next tick moves the head.
    pub open spec fn destination(&self) -> (int, int) {
        self.spec_head().spec_next(self.spec_next_direction())
    }

    pub open spec fn dest_pos(&self) -> Position {
        Position(self.destination().0 as usize, self.destination().1 as usize)
    }

    /// What the next tick reports: the destination is classified as it stands
    /// once the tail has been trimmed.
    pub open spec fn spec_outcome(&self) -> TickOutcome {
        if self.spec_over() {
            TickOutcome::GameOver
        } else {
            let c = self.cell_after_trim(self.destination().0, self.destination().1);
            if c.spec_blocks() {
                TickOutcome::GameOver
            } else if c == CellContents::Food {
                TickOutcome::AteFood
            } else {
                TickOutcome::Continued
            }
        }
    }

    /// `other` differs from `self` in the board alone.
    pub open spec fn same_but_board(&self, other: &Game) -> bool {
        &&& other.spec_max_length() == self.spec_max_length()
        &&& other.spec_current_direction() == self.spec_current_direction()
        &&& other.spec_next_direction() == self.spec_next_direction()
        &&& other.body() == self.body()
        &&& other.spec_head() == self.spec_head()
        &&& other.spec_food() == self.spec_food()
        &&& other.spec_over() == self.spec_over()
        &&& other.spec_grid().wf()
        &&& other.board_width() == self.board_width()
        &&& other.board_height() == self.board_height()
    }

    /// A round just set up on a `w` × `h` board: walls around an empty
    /// interior, no body yet, heading right, target length at its initial
    /// value, no food.
    pub open spec fn is_fresh_round(&self, w: int, h: int) -> bool {
        &&& self.board_width() == w
        &&& self.board_height() == h
        &&& forall|x: int, y: int|
            #![trigger self.spec_grid().cell(x, y)]
            self.in_board(x, y) ==> self.spec_grid().cell(x, y) == world_cell(x, y, w, h)
        &&& self.body().len() == 0
        &&& self.spec_head() == Position(0, 0)
        &&& self.spec_max_length() == INITIAL_LENGTH
        &&& self.spec_current_direction() == INITIAL_DIRECTION
        &&& self.spec_next_direction() == INITIAL_DIRECTION
        &&& self.spec_food() == None::<Position>
        &&& !self.spec_over()
    }

    /// Sets up a round on a `width` × `height` board, or reports that the
    /// board is too small to have an interior. The snake is placed by
    /// `spawn_snake`.
    pub fn new(width: usize, height: usize) -> (r: Result<Game, GameError>)
        ensures
            match r {
                Ok(g) => width >= 3 && height >= 3 && g.board_wf() && g.is_fresh_round(
                    width as int,
                    height as int,
                ),
                Err(e) => (width < 3 || height < 3) && e == GameError::GridTooSmall,
            },
    {
        if width < 3 || height < 3 {
            return Err(GameError::GridTooSmall);
        }
        let grid = build_world(width, height);
        let game = Game {
            grid,
            max_length: INITIAL_LENGTH,
            current_direction: INITIAL_DIRECTION,
            next_direction: INITIAL_DIRECTION,
            snake: VecDeque::new(),
            head: Position(0, 0),
            food: None,
            over: false,
        };
        proof {
            game.grid.lemma_dims_fit();
        }
        Ok(game)
    }

    /// Where `spawn_snake` places the first segment.
    pub fn start(&self) -> (r: Position)
        requires
            self.board_wf(),
        ensures
            r == start_position(self.board_width(), self.board_height()),
    {
        let width = self.grid.width();
        let x = if INITIAL_SNAKE_X <= width - 2 {
            INITIAL_SNAKE_X
        } else {
            width - 2
        };
        Position(x, self.grid.height() / 2)
    }

    /// Places the first segment of the snake on the start cell, which must be
    /// empty, and makes it the head.
    pub fn spawn_snake(&mut self)
        requires
            old(self).board_wf(),
            old(self).body().len() == 0,
            old(self).pos_cell(start_position(old(self).board_width(), old(self).board_height()))
                == CellContents::Empty,
        ensures
            final(self).wf(),
            ({
                let s = start_position(old(self).board_width(), old(self).board_height());
                &&& final(self).body() == seq![s]
                &&& final(self).spec_head() == s
                &&& final(self).pos_cell(s) == CellContents::Snake
                &&& forall|x: int, y: int|
                    #![trigger final(self).spec_grid().cell(x, y)]
                    final(self).in_board(x, y) && (x, y) != (s.0 as int, s.1 as int)
                        ==> final(self).spec_grid().cell(x, y) == old(self).spec_grid().cell(x, y)
            }),
            final(self).board_width() == old(self).board_width(),
            final(self).board_height() == old(self).board_height(),
            final(self).spec_max_length() == old(self).spec_max_length(),
            final(self).spec_current_direction() == old(self).spec_current_direction(),
            final(self).spec_next_direction() == old(self).spec_next_direction(),
            final(self).spec_food() == old(self).spec_food(),
            final(self).spec_over() == old(self).spec_over(),
    {
        let start = self.start();
        *self.grid.get_mut(start.0, start.1) = CellContents::Snake;
        self.snake.push_back(start);
        self.head = start;
        assert(self.body() =~= seq![start]);
    }

    /// Sets the cell of a removed tail segment back to empty.
    fn clear_position(&mut self, x: usize, y: usize)
        requires
            old(self).spec_grid().wf(),
            old(self).in_board(x as int, y as int),
            old(self).spec_grid().cell(x as int, y as int) == CellContents::Snake,
        ensures
            final(self).spec_grid().wf(),
            final(self).spec_grid().spec_width() == old(self).spec_grid().spec_width(),
            final(self).spec_grid().spec_height() == old(self).spec_grid().spec_height(),
            final(self).spec_grid().cell(x as int, y as int) == CellContents::Empty,
            forall|i: int, j: int|
                #![trigger final(self).spec_grid().cell(i, j)]
                final(self).in_board(i, j) && (i != x || j != y) ==> final(self).spec_grid().cell(i, j)
                    == old(self).spec_grid().cell(i, j),
            final(self).snake == old(self).snake,
            final(self).max_length == old(self).max_length,
            final(self).current_direction == old(self).current_direction,
            final(self).next_direction == old(self).next_direction,
            final(self).head == old(self).head,
            final(self).food == old(self).food,
            final(self).over == old(self).over,
    {
        let p = self.grid.get_mut(x, y);
        *p = CellContents::Empty;
    }

    /// Removes tail segments while the body is longer than the target,
    /// emptying their cells.
    fn trim_tail(&mut self)
        requires
            old(self).wf(),
        ensures
            final(self).wf(),
            final(self).body() == old(self).trimmed_body(),
            forall|x: int, y: int|
                #![trigger final(self).spec_grid().cell(x, y)]
                final(self).in_board(x, y) ==> final(self).spec_grid().cell(x, y)
                    == old(self).cell_after_trim(x, y),
            final(self).spec_grid().spec_width() == old(self).spec_grid().spec_width(),
            final(self).spec_grid().spec_height() == old(self).spec_grid().spec_height(),
            final(self).max_length == old(self).max_length,
            final(self).current_direction == old(self).current_direction,
            final(self).next_direction == old(self).next_direction,
            final(self).head == old(self).head,
            final(self).food == old(self).food,
            final(self).over == old(self).over,
    {
        let ghost g0 = *self;
        let ghost b0 = self.snake@;
        let ghost mut removed: int = 0;
        while self.snake.len() > self.max_length
            invariant
                self.wf(),
                0 <= removed <= g0.n_trimmed(),
                self.snake@ == b0.subrange(removed, b0.len() as int),
                b0 == g0.body(),
                g0.wf(),
                self.grid.spec_width() == g0.grid.spec_width(),
                self.grid.spec_height() == g0.grid.spec_height(),
                self.max_length == g0.max_length,
                self.current_direction == g0.current_direction,
                self.next_direction == g0.next_direction,
                self.head == g0.head,
                self.food == g0.food,
                self.over == g0.over,
                forall|x: int, y: int|
                    #![trigger self.grid.cell(x, y)]
                    self.in_board(x, y) ==> self.grid.cell(x, y) == if b0.subrange(0, removed).contains(
                        Position(x as usize, y as usize),
                    ) {
                        CellContents::Empty
                    } else {
                        g0.grid.cell(x, y)
                    },
            decreases self.snake@.len(),
        {
            let ghost before = *self;
            match self.snake.pop_front() {
                Some(tail) => {
                    assert(tail == before.body()[0]);
                    self.clear_position(tail.0, tail.1);
                    proof {
                        let b = before.body();
                        assert forall|i: int, j: int| 0 <= i < j < self.body().len() implies #[trigger] self.body()[i]
                            != #[trigger] self.body()[j] by {
                            assert(self.body()[i] == b[i + 1]);
                            assert(self.body()[j] == b[j + 1]);
                        }
                        assert forall|i: int| 0 <= i < self.body().len() implies self.pos_interior(
                            #[trigger] self.body()[i],
                        ) && self.pos_cell(self.body()[i]) == CellContents::Snake by {
                            assert(self.body()[i] == b[i + 1]);
                            assert(b[0] != b[i + 1]);
                        }
                        let prev = b0.subrange(0, removed);
                        let next = b0.subrange(0, removed + 1);
                        assert(next =~= prev.push(tail));
                        assert(b0[removed] == tail);
                        assert(self.snake@ =~= b0.subrange(removed + 1, b0.len() as int));
                        assert forall|x: int, y: int|
                            #![trigger self.grid.cell(x, y)]
                            self.in_board(x, y) implies self.grid.cell(x, y) == if next.contains(
                                Position(x as usize, y as usize),
                            ) {
                                CellContents::Empty
                            } else {
                                g0.grid.cell(x, y)
                            } by {
                            let p = Position(x as usize, y as usize);
                            if x == tail.0 && y == tail.1 {
                                assert(next[removed] == p);
                            } else {
                                assert(p != tail);
                                if next.contains(p) {
                                    let k = choose|k: int| 0 <= k < next.len() && #[trigger] next[k] == p;
                                    assert(prev[k] == p);
                                } else if prev.contains(p) {
                                    let k = choose|k: int| 0 <= k < prev.len() && #[trigger] prev[k] == p;
                                    assert(next[k] == p);
                                }
                            }
                        }
                        removed = removed + 1;
                    }
                },
                None => {},
            }
        }
        proof {
            assert(removed == g0.n_trimmed());
            assert(b0.subrange(0, removed) =~= g0.vacated());
        }
    }

    /// Steps 1 to 4 of a tick: trim the tail down to the target length, move
    /// the heading to the pending one, classify the destination cell, and on
    /// a free cell commit the new head (eating the food if it was there).
    /// On a wall or a body cell the round ends and no head is committed.
    /// A round that is over stays as it is.
    pub fn advance(&mut self) -> (outcome: TickOutcome)
        requires
            old(self).wf(),
            old(self).spec_max_length() + SNAKE_GROWTH_RATE <= usize::MAX,
        ensures
            final(self).wf(),
            outcome == old(self).spec_outcome(),
            final(self).spec_over() == (outcome == TickOutcome::GameOver),
            old(self).spec_over() ==> *final(self) == *old(self),
            final(self).board_width() == old(self).board_width(),
            final(self).board_height() == old(self).board_height(),
            final(self).spec_next_direction() == old(self).spec_next_direction(),
            !old(self).spec_over() ==> final(self).spec_current_direction()
                == old(self).spec_next_direction(),
            !old(self).spec_over() && outcome == TickOutcome::GameOver ==> {
                &&& final(self).body() == old(self).trimmed_body()
                &&& final(self).spec_head() == old(self).spec_head()
                &&& final(self).spec_max_length() == old(self).spec_max_length()
                &&& final(self).spec_food() == old(self).spec_food()
                &&& forall|x: int, y: int|
                    #![trigger final(self).spec_grid().cell(x, y)]
                    final(self).in_board(x, y) ==> final(self).spec_grid().cell(x, y)
                        == old(self).cell_after_trim(x, y)
            },
            outcome != TickOutcome::GameOver ==> {
                &&& final(self).body() == old(self).trimmed_body().push(old(self).dest_pos())
                &&& final(self).spec_head() == old(self).dest_pos()
                &&& final(self).pos_cell(old(self).dest_pos()) == CellContents::Snake
                &&& forall|x: int, y: int|
                    #![trigger final(self).spec_grid().cell(x, y)]
                    final(self).in_board(x, y) && (x, y) != old(self).destination()
                        ==> final(self).spec_grid().cell(x, y) == old(self).cell_after_trim(x, y)
            },
            outcome == TickOutcome::AteFood ==> final(self).spec_max_length()
                == old(self).spec_max_length() + SNAKE_GROWTH_RATE && final(self).spec_food()
                is None,
            outcome == TickOutcome::Continued ==> final(self).spec_max_length()
                == old(self).spec_max_length() && final(self).spec_food() == old(self).spec_food(),
    {
        if self.over {
            return TickOutcome::GameOver;
        }
        let ghost g0 = *self;
        self.trim_tail();
        let ghost g1 = *self;
        proof {
            let b = self.body();
            assert(self.pos_interior(b[b.len() - 1]));
        }
        let next = self.head.get_next_position(self.next_direction);
        self.current_direction = self.next_direction;
        let contents = *self.grid.get(next.0, next.1);
        if contents.blocks() {
            self.over = true;
            return TickOutcome::GameOver;
        }
        let ate = matches!(contents, CellContents::Food);
        if ate {
            self.food = None;
            self.max_length = self.max_length + SNAKE_GROWTH_RATE;
        }
        *self.grid.get_mut(next.0, next.1) = CellContents::Snake;
        self.snake.push_back(next);
        self.head = next;
        proof {
            let b1 = g1.body();
            let b = self.body();
            assert(b =~= b1.push(next));
            assert(!on_border(next.0 as int, next.1 as int, self.board_width(), self.board_height()));
            assert forall|i: int| 0 <= i < b1.len() implies #[trigger] b1[i] != next by {
                assert(g1.pos_cell(b1[i]) == CellContents::Snake);
            }
            assert forall|i: int| 0 <= i < b.len() implies self.pos_interior(#[trigger] b[i])
                && self.pos_cell(b[i]) == CellContents::Snake by {
                if i < b1.len() {
                    assert(b[i] == b1[i]);
                    assert(g1.pos_cell(b1[i]) == CellContents::Snake);
                }
            }
            assert forall|i: int, j: int| 0 <= i < j < b.len() implies #[trigger] b[i]
                != #[trigger] b[j] by {
                if j < b1.len() {
                    assert(b[i] == b1[i] && b[j] == b1[j]);
                } else {
                    assert(b[i] == b1[i]);
                }
            }
        }
        if ate {
            TickOutcome::AteFood
        } else {
            TickOutcome::Continued
        }
    }

    /// Records a steering request: it becomes the pending heading unless it
    /// reverses the current one, in which case it is dropped.
    pub fn request_direction(&mut self, d: Direction)
        requires
            old(self).wf(),
        ensures
            final(self).wf(),
            final(self).spec_next_direction() == requested_direction(
                old(self).spec_current_direction(),
                old(self).spec_next_direction(),
                d,
            ),
            final(self).spec_grid() == old(self).spec_grid(),
            final(self).body() == old(self).body(),
            final(self).spec_head() == old(self).spec_head(),
            final(self).spec_food() == old(self).spec_food(),
            final(self).spec_max_length() == old(self).spec_max_length(),
            final(self).spec_current_direction() == old(self).spec_current_direction(),
            final(self).spec_over() == old(self).spec_over(),
    {
        if d != self.current_direction.opposite() {
            self.next_direction = d;
        }
    }

    /// The target body length; at the end of a round, its score.
    pub fn max_length(&self) -> (r: usize)
        ensures
            r == self.spec_max_length(),
    {
        self.max_length
    }

    pub fn head(&self) -> (r: Position)
        ensures
            r == self.spec_head(),
    {
        self.head
    }

    pub fn food(&self) -> (r: Option<Position>)
        ensures
            r == self.spec_food(),
    {
        self.food
    }

    pub fn current_direction(&self) -> (r: Direction)
        ensures
            r == self.spec_current_direction(),
    {
        self.current_direction
    }

    pub fn next_direction(&self) -> (r: Direction)
        ensures
            r == self.spec_next_direction(),
    {
        self.next_direction
    }

    pub fn is_over(&self) -> (r: bool)
        ensures
            r == self.spec_over(),
    {
        self.over
    }

    /// The board, for drawing.
    pub fn grid(&self) -> (r: &Grid<CellContents>)
        ensures
            *r == self.spec_grid(),
    {
        &self.grid
    }

    /// The body's cells, tail first and head last.
    pub fn snake(&self) -> (r: Vec<Position>)
        ensures
            r@ == self.body(),
    {
        let mut r: Vec<Position> = Vec::new();
        let mut i: usize = 0;
        while i < self.snake.len()
            invariant
                i <= self.snake@.len(),
                r@ == self.snake@.subrange(0, i as int),
            decreases self.snake@.len() - i,
        {
            r.push(self.snake[i]);
            i += 1;
            assert(r@ =~= self.snake@.subrange(0, i as int));
        }
        assert(r@ =~= self.snake@);
        r
    }

    /// Puts the food on the empty interior cell `p`.
    fn mark_food(&mut self, p: Position)
        requires
            old(self).wf(),
            old(self).spec_food() is None,
            old(self).pos_interior(p),
            old(self).pos_cell(p) == CellContents::Empty,
        ensures
            final(self).wf(),
            food_marked(*old(self), *final(self), p),
    {
        *self.grid.get_mut(p.0, p.1) = CellContents::Food;
        self.food = Some(p);
    }

    /// One placement attempt: the draws `rx` and `ry` pick an interior cell;
    /// if it is empty the food goes there and the cell is returned, else
    /// nothing changes.
    pub fn try_place_food(&mut self, rx: u64, ry: u64) -> (r: Option<Position>)
        requires
            old(self).wf(),
            old(self).spec_food() is None,
        ensures
            final(self).wf(),
            ({
                let p = food_candidate(rx, ry, old(self).board_width(), old(self).board_height());
                &&& old(self).pos_cell(p) == CellContents::Empty ==> r == Some(p) && food_marked(
                    *old(self),
                    *final(self),
                    p,
                )
                &&& old(self).pos_cell(p) != CellContents::Empty ==> r is None && *final(self)
                    == *old(self)
            }),
    {
        let xrange = (self.grid.width() - 2) as u64;
        let yrange = (self.grid.height() - 2) as u64;
        let x = (rx % xrange) as usize + 1;
        let y = (ry % yrange) as usize + 1;
        let p = Position(x, y);
        if matches!(*self.grid.get(x, y), CellContents::Empty) {
            self.mark_food(p);
            Some(p)
        } else {
            None
        }
    }

    /// The first empty interior cell, column by column, if there is one.
    pub fn first_empty_interior(&self) -> (r: Option<Position>)
        requires
            self.wf(),
        ensures
            match r {
                Some(p) => {
                    &&& self.pos_interior(p)
                    &&& self.pos_cell(p) == CellContents::Empty
                    &&& forall|i: int, j: int|
                        #![trigger self.spec_grid().cell(i, j)]
                        is_interior(i, j, self.board_width(), self.board_height()) && (i < p.0 || (i
                            == p.0 && j < p.1)) ==> self.spec_grid().cell(i, j) != CellContents::Empty
                },
                None => self.board_full(),
            },
    {
        let w = self.grid.width();
        let h = self.grid.height();
        let mut x: usize = 1;
        while x < w - 1
            invariant
                self.wf(),
                w == self.board_width(),
                h == self.board_height(),
                1 <= x <= w - 1,
                forall|i: int, j: int|
                    #![trigger self.spec_grid().cell(i, j)]
                    1 <= i < x && 1 <= j <= h - 2 ==> self.spec_grid().cell(i, j)
                        != CellContents::Empty,
            decreases w - x,
        {
            let mut y: usize = 1;
            while y < h - 1
                invariant
                    self.wf(),
                    w == self.board_width(),
                    h == self.board_height(),
                    1 <= x < w - 1,
                    1 <= y <= h - 1,
                    forall|i: int, j: int|
                        #![trigger self.spec_grid().cell(i, j)]
                        (1 <= i < x && 1 <= j <= h - 2) || (i == x && 1 <= j < y)
                            ==> self.spec_grid().cell(i, j) != CellContents::Empty,
                decreases h - y,
            {
                if matches!(*self.grid.get(x, y), CellContents::Empty) {
                    return Some(Position(x, y));
                }
                y += 1;
            }
            x += 1;
        }
        None
    }

    /// Places the food on an empty interior cell: up to `FOOD_DRAW_ATTEMPTS`
    /// random picks, then the first empty interior cell in column order.
    /// Returns `None`, changing nothing, only when the interior is full.
    pub fn place_food(&mut self, rng: &mut bevy_prng::WyRand) -> (r: Option<Position>)
        requires
            old(self).wf(),
            old(self).spec_food() is None,
        ensures
            final(self).wf(),
            match r {
                Some(p) => food_marked(*old(self), *final(self), p),
                None => old(self).board_full() && *final(self) == *old(self),
            },
    {
        let ghost g0 = *self;
        let mut attempt: usize = 0;
        while attempt < FOOD_DRAW_ATTEMPTS
            invariant
                self.wf(),
                *self == g0,
                g0 == *old(self),
                g0.spec_food() is None,
            decreases FOOD_DRAW_ATTEMPTS - attempt,
        {
            let rx = next_random(rng);
            let ry = next_random(rng);
            let placed = self.try_place_food(rx, ry);
            if placed.is_some() {
                return placed;
            }
            attempt += 1;
        }
        match self.first_empty_interior() {
            Some(p) => {
                self.mark_food(p);
                Some(p)
            },
            None => None,
        }
    }

    /// One tick: `advance`, then, unless the round ended, new food when none
    /// is on the board.
    pub fn tick(&mut self, rng: &mut bevy_prng::WyRand) -> (outcome: TickOutcome)
        requires
            old(self).wf(),
            old(self).spec_max_length() + SNAKE_GROWTH_RATE <= usize::MAX,
        ensures
            final(self).wf(),
            outcome == old(self).spec_outcome(),
            final(self).spec_over() == (outcome == TickOutcome::GameOver),
            old(self).spec_over() ==> *final(self) == *old(self),
            !old(self).spec_over() ==> final(self).spec_current_direction()
                == old(self).spec_next_direction(),
            !old(self).spec_over() && outcome == TickOutcome::GameOver ==> final(self).body()
                == old(self).trimmed_body(),
            outcome != TickOutcome::GameOver ==> final(self).body() == old(self).trimmed_body().push(
                old(self).dest_pos(),
            ) && final(self).spec_head() == old(self).dest_pos(),
            outcome == TickOutcome::AteFood ==> final(self).spec_max_length()
                == old(self).spec_max_length() + SNAKE_GROWTH_RATE,
            outcome != TickOutcome::AteFood ==> final(self).spec_max_length()
                == old(self).spec_max_length(),
            outcome == TickOutcome::Continued && old(self).body().len() == old(self).spec_max_length()
                + 1 ==> final(self).body().len() == old(self).body().len(),
            outcome != TickOutcome::GameOver ==> final(self).spec_food() is Some
                || final(self).board_full(),
            !old(self).spec_over() && outcome == TickOutcome::GameOver ==> forall|x: int, y: int|
                #![trigger final(self).spec_grid().cell(x, y)]
                final(self).in_board(x, y) ==> final(self).spec_grid().cell(x, y)
                    == old(self).cell_after_trim(x, y),
            outcome != TickOutcome::GameOver ==> {
                &&& final(self).pos_cell(old(self).dest_pos()) == CellContents::Snake
                &&& forall|x: int, y: int|
                    #![trigger final(self).spec_grid().cell(x, y)]
                    final(self).in_board(x, y) && (x, y) != old(self).destination()
                        && final(self).spec_grid().cell(x, y) != CellContents::Food
                        ==> final(self).spec_grid().cell(x, y) == old(self).cell_after_trim(x, y)
            },
            tick_step(*old(self), *final(self), outcome),
            outcome == TickOutcome::Continued && old(self).spec_food() is Some
                ==> final(self).spec_food() == old(self).spec_food(),
            outcome != TickOutcome::GameOver && (outcome == TickOutcome::AteFood
                || old(self).spec_food() is None) ==> match final(self).spec_food() {
                Some(p) => {
                    &&& final(self).pos_interior(p)
                    &&& (p.0 as int, p.1 as int) != old(self).destination()
                    &&& old(self).cell_after_trim(p.0 as int, p.1 as int) == CellContents::Empty
                },
                None => final(self).board_full(),
            },
    {
        let outcome = self.advance();
        if outcome != TickOutcome::GameOver && self.food.is_none() {
            self.place_food(rng);
        }
        outcome
    }
}

/// Saves the score of a round that has ended: its target length becomes the
/// last score, and the best score if it beats it.
pub fn save_score(score: &mut Score, game: &Game)
    ensures
        final(score).current == game.spec_max_length(),
        final(score).best == if game.spec_max_length() > old(score).best {
            game.spec_max_length()
        } else {
            old(score).best as nat
        },
{
    score.record_round(game.max_length());
}

/// A request to reverse the current heading leaves the pending heading as it
/// was, so the next tick never moves the head back onto the cell it has just
/// left (one step against the current heading).
pub proof fn lemma_reversal_request_dropped(g: Game)
    requires
        g.wf(),
    ensures
        requested_direction(
            g.spec_current_direction(),
            g.spec_next_direction(),
            g.spec_current_direction().spec_opposite(),
        ) == g.spec_next_direction(),
        g.destination() != (
            g.spec_head().0 - g.spec_current_direction().delta().0,
            g.spec_head().1 - g.spec_current_direction().delta().1,
        ),
{
}

/// When this tick's trim removes the tail, a head that moves onto the tail's
/// cell finds it empty and the tick goes on.
pub proof fn lemma_tail_vacates_first(g: Game)
    requires
        g.wf(),
        !g.spec_over(),
        g.body().len() > g.spec_max_length(),
        g.dest_pos() == g.body()[0],
    ensures
        g.cell_after_trim(g.destination().0, g.destination().1) == CellContents::Empty,
        g.spec_outcome() == TickOutcome::Continued,
{
    let b = g.body();
    assert(g.pos_interior(b[b.len() - 1]));
    assert(g.vacated()[0] == b[0]);
}

/// Over a run of ticks the target length grows by the growth step once for
/// every tick that ate food, and at no other time.
pub proof fn lemma_growth_over_run(states: Seq<Game>, outcomes: Seq<TickOutcome>)
    requires
        is_tick_run(states, outcomes),
    ensures
        states.last().spec_max_length() == states[0].spec_max_length() + SNAKE_GROWTH_RATE
            * count_eaten(outcomes),
    decreases outcomes.len(),
{
    if outcomes.len() > 0 {
        let n = outcomes.len() - 1;
        let s2 = states.drop_last();
        let o2 = outcomes.drop_last();
        assert forall|i: int| 0 <= i < o2.len() implies #[trigger] tick_step(s2[i], s2[i + 1], o2[i]) by {
            assert(tick_step(states[i], states[i + 1], outcomes[i]));
        }
        lemma_growth_over_run(s2, o2);
        assert(tick_step(states[n], states[n + 1], outcomes[n]));
        assert(s2.last() == states[n]);
        assert(SNAKE_GROWTH_RATE * count_eaten(outcomes) == SNAKE_GROWTH_RATE * count_eaten(o2)
            + SNAKE_GROWTH_RATE * (count_eaten(outcomes) - count_eaten(o2))) by (nonlinear_arith);
    }
}

/// Over a run of ticks that eat nothing and do not end the round, a body that
/// has been trimmed to the target (one past it between ticks) keeps that
/// length, and the target stays where it was.
pub proof fn lemma_length_steady_over_run(states: Seq<Game>, outcomes: Seq<TickOutcome>)
    requires
        is_tick_run(states, outcomes),
        forall|i: int| 0 <= i < outcomes.len() ==> #[trigger] outcomes[i] == TickOutcome::Continued,
        states[0].body().len() == states[0].spec_max_length() + 1,
    ensures
        forall|i: int|
            0 <= i < states.len() ==> #[trigger] states[i].body().len() == states[0].spec_max_length()
                + 1 && states[i].spec_max_length() == states[0].spec_max_length(),
    decreases outcomes.len(),
{
    if outcomes.len() > 0 {
        let n = outcomes.len() - 1;
        let s2 = states.drop_last();
        let o2 = outcomes.drop_last();
        assert forall|i: int| 0 <= i < o2.len() implies #[trigger] tick_step(s2[i], s2[i + 1], o2[i]) by {
            assert(tick_step(states[i], states[i + 1], outcomes[i]));
        }
        assert forall|i: int| 0 <= i < o2.len() implies #[trigger] o2[i] == TickOutcome::Continued by {
            assert(outcomes[i] == TickOutcome::Continued);
        }
        lemma_length_steady_over_run(s2, o2);
        assert(tick_step(states[n], states[n + 1], outcomes[n]));
        assert(outcomes[n] == TickOutcome::Continued);
        assert(s2[n] == states[n]);
        assert forall|i: int| 0 <= i < states.len() implies #[trigger] states[i].body().len()
            == states[0].spec_max_length() + 1 && states[i].spec_max_length()
            == states[0].spec_max_length() by {
            if i < s2.len() {
                assert(s2[i] == states[i]);
            }
        }
    }
}

} // verus!
