//! A session of the Game of Life: a board and the count of its generations.

use crate::board::{Board, Cell};
use crate::notation::reads_as;
use crate::point::{cells_of, lemma_cells_of_push, Point};
use crate::point_set::PointSet;
use crate::rules::{
    dying, lemma_near_a_live_cell, lemma_next_generation_by_parts, live_among, live_neighbors,
    neighbor, newborn, next_generation,
};
use std::str::FromStr;
use vstd::prelude::*;
use vstd::std_specs::convert::FromSpecImpl;

verus! {

/// Why a board could not be built.
#[derive(Debug)]
pub struct GameError {
    kind: GameErrorKind,
}

/// The kinds of [`GameError`].
#[derive(Debug)]
pub enum GameErrorKind {
    /// The text `s` of a board holds the character `c`, which stands for no
    /// cell. `line` is the index of its line, counted from the last line of
    /// the text, which has index 0; an index beyond 16 bits is cut down to its
    /// lowest 16 bits.
    InvalidBoardChar { c: char, line: u16, s: String },
}

impl View for GameError {
    type V = GameErrorKind;

    closed spec fn view(&self) -> GameErrorKind {
        self.kind
    }
}

impl GameError {
    /// An error of the given kind.
    pub fn new(kind: GameErrorKind) -> (error: GameError)
        ensures
            error@ == kind,
    {
        GameError { kind }
    }

    /// What went wrong.
    pub fn kind(&self) -> (kind: &GameErrorKind)
        ensures
            *kind == self@,
    {
        &self.kind
    }
}

/// Whether every live cell is at least two cells away from the edge of the
/// `i64` range, so that a step can look at the neighbours of its neighbours.
pub open spec fn has_room(live: Set<(int, int)>) -> bool {
    forall|c: (int, int)| #[trigger] live.contains(c) ==> away_from_edge(c)
}

/// Whether `c` is at least two cells away from the edge of the `i64` range.
pub open spec fn away_from_edge(c: (int, int)) -> bool {
    &&& i64::MIN + 2 <= c.0 <= i64::MAX - 2
    &&& i64::MIN + 2 <= c.1 <= i64::MAX - 2
}

/// Whether `c` is a neighbour of one of the points of the list.
spec fn near(points: Seq<Point>, c: (int, int)) -> bool {
    exists|j: int, k: int|
        0 <= j < points.len() && 0 <= k < 8 && #[trigger] neighbor(points[j]@, k) == c
}

/// Whether `c` is one of the first `k` neighbours of `p`.
spec fn among_first(p: Point, k: int, c: (int, int)) -> bool {
    exists|j: int| 0 <= j < k && #[trigger] neighbor(p@, j) == c
}

/// The number of live cells around `p`.
fn live_around(board: &Board, p: &Point) -> (count: usize)
    requires
        p.is_interior(),
    ensures
        count == live_neighbors(board@, p@),
{
    let mut around = board.neighbors(p);
    let mut count: usize = 0;
    let ghost mut k: int = 0;
    loop
        invariant
            p.is_interior(),
            0 <= k <= 8,
            around.remaining() == board.neighbor_cells(*p).skip(k),
            count == live_among(board@, p@, k),
        ensures
            k == 8,
        decreases 8 - k,
    {
        match around.next() {
            Some(Cell::Alive(_)) => {
                count += 1;
            },
            Some(Cell::Dead(_)) => {},
            None => {
                break ;
            },
        }
        proof {
            k = k + 1;
        }
    }
    count
}

/// A board, the cells that its last step killed and brought to life, and the
/// number of steps taken.
#[derive(Debug)]
pub struct GameOfLife {
    pub board: Board,
    pub killed_cells: PointSet,
    pub birthed_cells: PointSet,
    pub generation: u32,
}

impl Default for GameOfLife {
    fn default() -> (game: GameOfLife)
        ensures
            game.board@ == Set::<(int, int)>::empty(),
            game.killed_cells@ == Set::<(int, int)>::empty(),
            game.birthed_cells@ == Set::<(int, int)>::empty(),
            game.generation == 0,
    {
        GameOfLife {
            board: Board::default(),
            killed_cells: PointSet::new(),
            birthed_cells: PointSet::new(),
            generation: 0,
        }
    }
}

impl<const N: usize> From<[Point; N]> for GameOfLife {
    /// A session at generation 0 whose live cells are the given points.
    fn from(value: [Point; N]) -> (game: GameOfLife)
        ensures
            game.board@ == cells_of(value@),
            game.killed_cells@ == Set::<(int, int)>::empty(),
            game.birthed_cells@ == Set::<(int, int)>::empty(),
            game.generation == 0,
    {
        GameOfLife {
            board: Board::from(value),
            killed_cells: PointSet::new(),
            birthed_cells: PointSet::new(),
            generation: 0,
        }
    }
}

impl<const N: usize> FromSpecImpl<[Point; N]> for GameOfLife {
    open spec fn obeys_from_spec() -> bool {
        false
    }

    open spec fn from_spec(value: [Point; N]) -> GameOfLife {
        choose|game: GameOfLife| game.board@ == cells_of(value@) && game.generation == 0
    }
}

impl FromStr for GameOfLife {
    type Err = GameError;

    /// A session at generation 0 on the board that `s` draws.
    fn from_str(s: &str) -> (result: Result<GameOfLife, GameError>)
        ensures
            match result {
                Ok(game) => {
                    &&& reads_as(s@, Ok(game.board))
                    &&& game.killed_cells@ == Set::<(int, int)>::empty()
                    &&& game.birthed_cells@ == Set::<(int, int)>::empty()
                    &&& game.generation == 0
                },
                Err(error) => reads_as(s@, Err(error)),
            },
    {
        match Board::from_str(s) {
            Ok(board) => Ok(
                GameOfLife {
                    board,
                    killed_cells: PointSet::new(),
                    birthed_cells: PointSet::new(),
                    generation: 0,
                },
            ),
            Err(error) => Err(error),
        }
    }
}

impl GameOfLife {
    /// Whether a step can be taken: the live cells are away from the edge of
    /// the `i64` range and the count of generations can still grow.
    pub open spec fn is_ready(&self) -> bool {
        has_room(self.board@) && self.generation < u32::MAX
    }

    /// Replaces the board by the one that `s` draws. If `s` draws no board,
    /// the session stays what it was.
    pub fn board_from_str(&mut self, s: &str) -> (result: Result<(), GameError>)
        ensures
            match result {
                Ok(_) => {
                    &&& reads_as(s@, Ok(final(self).board))
                    &&& final(self).killed_cells == old(self).killed_cells
                    &&& final(self).birthed_cells == old(self).birthed_cells
                    &&& final(self).generation == old(self).generation
                },
                Err(error) => reads_as(s@, Err(error)) && *final(self) == *old(self),
            },
    {
        match Board::from_str(s) {
            Ok(board) => {
                self.board = board;
                Ok(())
            },
            Err(error) => Err(error),
        }
    }

    /// Whether a step can be taken.
    pub fn can_step(&self) -> (ready: bool)
        ensures
            ready == self.is_ready(),
    {
        if self.generation == u32::MAX {
            return false;
        }
        let live = self.board.iter();
        let mut i: usize = 0;
        while i < live.len()
            invariant
                i <= live.len(),
                cells_of(live@) == self.board@,
                forall|j: int| 0 <= j < i ==> away_from_edge(#[trigger] live[j]@),
            decreases live.len() - i,
        {
            let p = live[i];
            if p.x < i64::MIN + 2 || p.x > i64::MAX - 2 || p.y < i64::MIN + 2 || p.y > i64::MAX
                - 2 {
                assert(cells_of(live@).contains(live[i as int]@));
                return false;
            }
            i += 1;
        }
        true
    }

    /// Advances the board by one generation.
    ///
    /// All cells are judged by the board before the step: the cells that die
    /// and the cells that are born are collected first and applied afterwards.
    pub fn step(&mut self)
        requires
            old(self).is_ready(),
        ensures
            final(self).board@ == next_generation(old(self).board@),
            final(self).killed_cells@ == dying(old(self).board@),
            final(self).birthed_cells@ == newborn(old(self).board@),
            final(self).generation == old(self).generation + 1,
    {
        self.killed_cells.clear();
        self.birthed_cells.clear();

        let live = self.board.iter();
        let ghost before = self.board@;
        let mut i: usize = 0;
        while i < live.len()
            invariant
                i <= live.len(),
                has_room(before),
                self.board@ == before,
                cells_of(live@) == before,
                self.generation == old(self).generation,
                forall|c: (int, int)| #[trigger]
                    self.killed_cells@.contains(c) <==> dying(before).contains(c) && cells_of(
                        live@.take(i as int),
                    ).contains(c),
                forall|c: (int, int)| #[trigger]
                    self.birthed_cells@.contains(c) <==> newborn(before).contains(c) && near(
                        live@.take(i as int),
                        c,
                    ),
            decreases live.len() - i,
        {
            let pos = live[i];
            let ghost seen = live@.take(i as int);
            assert(before.contains(pos@));
            let mut num_alive: usize = 0;
            let mut around = self.board.neighbors(&pos);
            let ghost mut k: int = 0;
            loop
                invariant
                    0 <= k <= 8,
                    pos == live[i as int],
                    i < live.len(),
                    seen == live@.take(i as int),
                    has_room(before),
                    before.contains(pos@),
                    self.board@ == before,
                    self.generation == old(self).generation,
                    around.remaining() == self.board.neighbor_cells(pos).skip(k),
                    num_alive == live_among(before, pos@, k),
                    forall|c: (int, int)| #[trigger]
                        self.killed_cells@.contains(c) <==> dying(before).contains(c) && cells_of(
                            seen,
                        ).contains(c),
                    forall|c: (int, int)| #[trigger]
                        self.birthed_cells@.contains(c) <==> newborn(before).contains(c) && (near(
                            seen,
                            c,
                        ) || among_first(pos, k, c)),
                ensures
                    k == 8,
                decreases 8 - k,
            {
                match around.next() {
                    Some(Cell::Dead(dead)) => {
                        // Rule 4
                        if live_around(&self.board, &dead) == 3 {
                            self.birthed_cells.insert(dead);
                        }
                    },
                    Some(Cell::Alive(_)) => {
                        num_alive += 1;
                    },
                    None => {
                        break ;
                    },
                }
                proof {
                    k = k + 1;
                }
            }
            // Rules 1 and 2; under rule 3 the cell lives on, unchanged.
            if num_alive < 2 || num_alive > 3 {
                self.killed_cells.insert(pos);
            }
            proof {
                let longer = live@.take(i + 1);
                assert(longer == seen.push(pos));
                lemma_cells_of_push(seen, pos);
                assert forall|c: (int, int)|
                    (near(seen, c) || among_first(pos, 8, c)) <==> near(longer, c) by {
                    if among_first(pos, 8, c) {
                        let m = choose|m: int| 0 <= m < 8 && #[trigger] neighbor(pos@, m) == c;
                        assert(neighbor(longer[i as int]@, m) == c);
                    }
                }
            }
            i += 1;
        }

        proof {
            assert(live@.take(i as int) == live@);
            assert forall|c: (int, int)| newborn(before).contains(c) implies near(live@, c) by {
                lemma_near_a_live_cell(before, c);
            }
            lemma_next_generation_by_parts(before);
        }

        let killed = self.killed_cells.points();
        let mut i: usize = 0;
        while i < killed.len()
            invariant
                i <= killed.len(),
                self.board@ == before.difference(cells_of(killed@.take(i as int))),
                self.killed_cells@ == dying(before),
                self.birthed_cells@ == newborn(before),
                self.generation == old(self).generation,
            decreases killed.len() - i,
        {
            self.board.kill_cell(&killed[i]);
            proof {
                lemma_cells_of_push(killed@.take(i as int), killed[i as int]);
                assert(killed@.take(i as int).push(killed[i as int]) == killed@.take(i + 1));
            }
            i += 1;
        }
        assert(killed@.take(i as int) == killed@);

        let birthed = self.birthed_cells.points();
        let ghost thinned = self.board@;
        let mut i: usize = 0;
        while i < birthed.len()
            invariant
                i <= birthed.len(),
                self.board@ == thinned.union(cells_of(birthed@.take(i as int))),
                self.killed_cells@ == dying(before),
                self.birthed_cells@ == newborn(before),
                self.generation == old(self).generation,
            decreases birthed.len() - i,
        {
            self.board.birth_cell(&birthed[i]);
            proof {
                lemma_cells_of_push(birthed@.take(i as int), birthed[i as int]);
                assert(birthed@.take(i as int).push(birthed[i as int]) == birthed@.take(i + 1));
            }
            i += 1;
        }
        assert(birthed@.take(i as int) == birthed@);

        self.generation += 1;
    }
}

} // verus!
