//! The board: the set of live cells, and the walk around a cell's neighbours.

use crate::point::{cells_of, lemma_cells_of_push, Point};
use crate::point_set::{in_plane, PointSet};
use vstd::prelude::*;
use vstd::std_specs::cmp::PartialEqSpecImpl;
use vstd::std_specs::convert::FromSpecImpl;

verus! {

/// What the board answers when asked about a position.
#[derive(Debug, PartialEq, Eq, Structural)]
pub enum Cell {
    Dead(Point),
    Alive(Point),
}

/// An unbounded board. Only the live cells are stored; every other cell of
/// the plane is dead.
#[derive(Debug)]
pub struct Board {
    board: PointSet,
}

impl View for Board {
    type V = Set<(int, int)>;

    /// The coordinates of the live cells.
    closed spec fn view(&self) -> Set<(int, int)> {
        self.board@
    }
}

/// `live` with the state of `c` flipped.
pub open spec fn toggled(live: Set<(int, int)>, c: (int, int)) -> Set<(int, int)> {
    if live.contains(c) {
        live.remove(c)
    } else {
        live.insert(c)
    }
}

/// Toggling the same cell twice changes nothing.
pub proof fn lemma_toggle_twice(live: Set<(int, int)>, c: (int, int))
    ensures
        toggled(toggled(live, c), c) == live,
{
}

/// Whether `c` lies in the window of the given size whose lowest corner is
/// `origin`.
pub open spec fn in_window(c: (int, int), origin: (int, int), width: int, height: int) -> bool {
    &&& 0 <= c.0 - origin.0 < width
    &&& 0 <= c.1 - origin.1 < height
}

/// The points of a list of window entries, in the same order.
pub open spec fn entry_points(entries: Seq<(Point, u16, u16)>) -> Seq<Point> {
    Seq::new(entries.len(), |i: int| entries[i].0)
}

impl Board {
    /// The state of the cell at `p`.
    pub open spec fn cell(&self, p: Point) -> Cell {
        if self@.contains(p@) {
            Cell::Alive(p)
        } else {
            Cell::Dead(p)
        }
    }

    /// The eight cells around `p`, counterclockwise from the one to its right.
    pub open spec fn neighbor_cells(&self, p: Point) -> Seq<Cell>
        recommends
            p.is_interior(),
    {
        Seq::new(8, |k: int| self.cell(p.neighbor(k)))
    }

    /// Every live cell has coordinates that fit in an `i64`.
    pub proof fn lemma_in_plane(&self)
        ensures
            forall|c: (int, int)| self@.contains(c) ==> in_plane(c),
    {
        self.board.lemma_in_plane();
    }

    /// The live cells are finitely many.
    pub proof fn lemma_finite(&self)
        ensures
            self@.finite(),
    {
        self.board.lemma_finite();
    }

    /// The walk around a cell always has the same eight stops in the same
    /// order, whichever of them are alive: right, up-right, up, up-left,
    /// left, down-left, down, down-right.
    pub proof fn lemma_neighbor_order(&self, p: Point)
        requires
            p.is_interior(),
        ensures
            self.neighbor_cells(p) == seq![
                self.cell(Point { x: (p.x + 1) as i64, y: p.y }),
                self.cell(Point { x: (p.x + 1) as i64, y: (p.y + 1) as i64 }),
                self.cell(Point { x: p.x, y: (p.y + 1) as i64 }),
                self.cell(Point { x: (p.x - 1) as i64, y: (p.y + 1) as i64 }),
                self.cell(Point { x: (p.x - 1) as i64, y: p.y }),
                self.cell(Point { x: (p.x - 1) as i64, y: (p.y - 1) as i64 }),
                self.cell(Point { x: p.x, y: (p.y - 1) as i64 }),
                self.cell(Point { x: (p.x + 1) as i64, y: (p.y - 1) as i64 }),
            ],
    {
    }

    /// Kills every cell.
    pub fn clear(&mut self)
        ensures
            final(self)@ == Set::<(int, int)>::empty(),
    {
        self.board.clear();
    }

    /// The state of the cell at `pos`.
    pub fn query(&self, pos: &Point) -> (cell: Cell)
        ensures
            cell == self.cell(*pos),
    {
        if self.board.contains(pos) {
            Cell::Alive(*pos)
        } else {
            Cell::Dead(*pos)
        }
    }

    /// A walk over the eight cells around `p`.
    pub fn neighbors(&self, p: &Point) -> (around: Neighbors<'_>)
        requires
            p.is_interior(),
        ensures
            around.remaining() == self.neighbor_cells(*p),
    {
        Neighbors::new(self, *p)
    }

    /// Makes the cell at `p` alive.
    pub fn birth_cell(&mut self, p: &Point)
        ensures
            final(self)@ == old(self)@.insert(p@),
    {
        self.board.insert(*p);
    }

    /// Makes the cell at `p` dead.
    pub fn kill_cell(&mut self, p: &Point)
        ensures
            final(self)@ == old(self)@.remove(p@),
    {
        self.board.remove(p);
    }

    /// Flips the cell at `p` between alive and dead.
    pub fn toggle_cell(&mut self, p: &Point)
        ensures
            final(self)@ == toggled(old(self)@, p@),
    {
        if self.board.contains(p) {
            self.kill_cell(p);
        } else {
            self.birth_cell(p);
        }
    }

    /// The live cells, each once, in no particular order.
    pub fn iter(&self) -> (live: Vec<Point>)
        ensures
            live@.no_duplicates(),
            cells_of(live@) == self@,
    {
        self.board.points()
    }

    /// The live cells inside the window of the given size whose lowest corner
    /// is `point`, each once and in no particular order, each with its offset
    /// from that corner.
    pub fn window(&self, point: Point, width: u16, height: u16) -> (inside: Vec<(Point, u16, u16)>)
        ensures
            entry_points(inside@).no_duplicates(),
            cells_of(entry_points(inside@)) == self@.filter(
                |c: (int, int)| in_window(c, point@, width as int, height as int),
            ),
            forall|i: int|
                0 <= i < inside.len() ==> {
                    &&& self@.contains((#[trigger] inside[i]).0@)
                    &&& in_window(inside[i].0@, point@, width as int, height as int)
                    &&& inside[i].1 == inside[i].0.x - point.x
                    &&& inside[i].2 == inside[i].0.y - point.y
                },
    {
        let live = self.board.points();
        let mut inside: Vec<(Point, u16, u16)> = Vec::new();
        let mut i: usize = 0;
        while i < live.len()
            invariant
                i <= live.len(),
                live@.no_duplicates(),
                entry_points(inside@).no_duplicates(),
                forall|a: int|
                    0 <= a < inside.len() ==> exists|j: int|
                        0 <= j < i && live[j] == (#[trigger] inside[a]).0,
                cells_of(entry_points(inside@)) == cells_of(live@.take(i as int)).filter(
                    |c: (int, int)| in_window(c, point@, width as int, height as int),
                ),
                forall|a: int|
                    0 <= a < inside.len() ==> {
                        &&& (#[trigger] inside[a]).1 == inside[a].0.x - point.x
                        &&& inside[a].2 == inside[a].0.y - point.y
                    },
            decreases live.len() - i,
        {
            let p = live[i];
            let dx: i128 = p.x as i128 - point.x as i128;
            let dy: i128 = p.y as i128 - point.y as i128;
            let ghost before = inside@;
            proof {
                lemma_cells_of_push(live@.take(i as int), p);
                assert(live@.take(i as int).push(p) == live@.take(i + 1));
            }
            if dx >= 0 && dx < width as i128 && dy >= 0 && dy < height as i128 {
                inside.push((p, dx as u16, dy as u16));
                proof {
                    assert(entry_points(inside@) == entry_points(before).push(p));
                    lemma_cells_of_push(entry_points(before), p);
                }
            }
            i += 1;
        }
        assert(live@.take(i as int) == live@);
        assert forall|a: int| 0 <= a < inside.len() implies self@.contains(
            (#[trigger] inside[a]).0@,
        ) && in_window(inside[a].0@, point@, width as int, height as int) by {
            assert(cells_of(entry_points(inside@)).contains(entry_points(inside@)[a]@));
        }
        inside
    }
}

impl Default for Board {
    fn default() -> (board: Board)
        ensures
            board@ == Set::<(int, int)>::empty(),
    {
        Board { board: PointSet::new() }
    }
}

impl Clone for Board {
    fn clone(&self) -> (copy: Board)
        ensures
            copy@ == self@,
    {
        Board { board: self.board.clone() }
    }
}

impl PartialEq for Board {
    fn eq(&self, other: &Board) -> (same: bool) {
        self.board == other.board
    }
}

impl PartialEqSpecImpl for Board {
    open spec fn obeys_eq_spec() -> bool {
        true
    }

    open spec fn eq_spec(&self, other: &Board) -> bool {
        self@ == other@
    }
}

impl<const N: usize> From<[Point; N]> for Board {
    /// The board whose live cells are the given points.
    fn from(value: [Point; N]) -> (board: Board)
        ensures
            board@ == cells_of(value@),
    {
        let mut board = Board::default();
        let mut i: usize = 0;
        while i < N
            invariant
                i <= N,
                board@ == cells_of(value@.take(i as int)),
            decreases N - i,
        {
            board.birth_cell(&value[i]);
            proof {
                lemma_cells_of_push(value@.take(i as int), value[i as int]);
                assert(value@.take(i as int).push(value[i as int]) == value@.take(i + 1));
            }
            i += 1;
        }
        assert(value@.take(i as int) == value@);
        board
    }
}

impl<const N: usize> FromSpecImpl<[Point; N]> for Board {
    open spec fn obeys_from_spec() -> bool {
        false
    }

    open spec fn from_spec(value: [Point; N]) -> Board {
        choose|board: Board| board@ == cells_of(value@)
    }
}

/// A walk over the eight cells around a position, counterclockwise from the
/// cell to its right. Each cell is looked up on the board when it is reached.
pub struct Neighbors<'a> {
    board: &'a Board,
    pos: Point,
    which: u8,
}

impl<'a> Neighbors<'a> {
    #[verifier::type_invariant]
    spec fn well_formed(self) -> bool {
        self.which <= 8 && self.pos.is_interior()
    }

    /// The cells that the walk has yet to visit, in order.
    pub closed spec fn remaining(&self) -> Seq<Cell> {
        if self.which <= 8 {
            self.board.neighbor_cells(self.pos).skip(self.which as int)
        } else {
            Seq::empty()
        }
    }

    /// A walk around `pos` that has visited nothing yet.
    pub fn new(board: &'a Board, pos: Point) -> (around: Neighbors<'a>)
        requires
            pos.is_interior(),
        ensures
            around.remaining() == board.neighbor_cells(pos),
    {
        Neighbors { board, pos, which: 0 }
    }

    /// How many cells are left, as a lower and an upper bound.
    pub fn size_hint(&self) -> (bounds: (usize, Option<usize>))
        ensures
            bounds.0 == self.remaining().len(),
            bounds.1 == Some(bounds.0),
    {
        proof {
            use_type_invariant(self);
        }
        let len: usize = 8 - self.which as usize;
        (len, Some(len))
    }

    /// The next cell of the walk, or `None` once all eight have been visited.
    pub fn next(&mut self) -> (cell: Option<Cell>)
        ensures
            old(self).remaining().len() > 0 ==> cell == Some(old(self).remaining()[0])
                && final(self).remaining() == old(self).remaining().drop_first(),
            old(self).remaining().len() == 0 ==> cell is None && final(self).remaining()
                == old(self).remaining(),
    {
        proof {
            use_type_invariant(&*self);
        }
        let Point { x, y } = self.pos;
        let pos = match self.which {
            // right
            0 => (x + 1, y),
            // up-right
            1 => (x + 1, y + 1),
            // up
            2 => (x, y + 1),
            // up-left
            3 => (x - 1, y + 1),
            // left
            4 => (x - 1, y),
            // down-left
            5 => (x - 1, y - 1),
            // down
            6 => (x, y - 1),
            // down-right
            7 => (x + 1, y - 1),
            _ => return None,
        };
        self.which += 1;
        Some(self.board.query(&Point::from(pos)))
    }
}

} // verus!
