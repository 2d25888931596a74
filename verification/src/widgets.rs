//! What of the board is shown where on a screen.
//!
//! Drawing itself is left to the caller; this module works out which screen
//! cells are to be marked.

use crate::board::{entry_points, Board};
use crate::point::{cells_of, Point};
use vstd::prelude::*;

verus! {

/// A rectangle of screen cells: its top left corner and its size.
#[derive(Debug, Clone, Copy, PartialEq, Eq, Structural)]
pub struct Area {
    pub x: u16,
    pub y: u16,
    pub width: u16,
    pub height: u16,
}

impl Default for Area {
    fn default() -> (area: Area)
        ensures
            area == (Area { x: 0, y: 0, width: 0, height: 0 }),
    {
        Area { x: 0, y: 0, width: 0, height: 0 }
    }
}

impl Area {
    /// Whether the screen cell in column `x` and row `y` lies in the area.
    pub open spec fn holds(self, x: int, y: int) -> bool {
        &&& self.x <= x < self.x + self.width
        &&& self.y <= y < self.y + self.height
    }

    /// Whether the right and the bottom edge of the area are on the screen,
    /// whose columns and rows are counted in 16 bits.
    pub open spec fn fits(self) -> bool {
        &&& self.x + self.width <= u16::MAX + 1
        &&& self.y + self.height <= u16::MAX + 1
    }
}

/// Whether the screen cell in column `x` and row `y` lies in `rect`.
pub fn within(rect: &Area, x: u16, y: u16) -> (inside: bool)
    ensures
        inside == rect.holds(x as int, y as int),
{
    x >= rect.x && (x as u32) < rect.x as u32 + rect.width as u32 && y >= rect.y && (y as u32)
        < rect.y as u32 + rect.height as u32
}

/// Where in `rect` the screen cell in column `x` and row `y` lies, counted
/// from the top left corner of `rect`; `None` if it lies outside.
pub fn contains(rect: Area, x: u16, y: u16) -> (offset: Option<(u16, u16)>)
    ensures
        offset == if rect.holds(x as int, y as int) {
            Some(((x - rect.x) as u16, (y - rect.y) as u16))
        } else {
            None
        },
{
    if within(&rect, x, y) {
        return Some((x - rect.x, y - rect.y));
    }
    None
}

/// A view of a board: the cell `origin` of the board is shown in the middle
/// of the area that the board is drawn into.
pub struct BoardWidget<'b> {
    board: &'b Board,
    origin: Point,
}

impl<'b> BoardWidget<'b> {
    /// The live cells of the board that is shown.
    pub closed spec fn shown(&self) -> Set<(int, int)> {
        self.board@
    }

    /// The cell of the board that is shown in the middle.
    pub closed spec fn origin(&self) -> Point {
        self.origin
    }

    /// The cell of the board that is shown in the top left corner of `area`.
    pub open spec fn corner(&self, area: Area) -> (int, int) {
        (self.origin().x - area.width / 2, self.origin().y - area.height / 2)
    }

    /// The cell of the board that the screen cell in column `x` and row `y`
    /// shows when the board is drawn into `area`.
    pub open spec fn cell_at(&self, area: Area, x: int, y: int) -> (int, int) {
        (self.corner(area).0 + (x - area.x), self.corner(area).1 + (y - area.y))
    }

    /// A view of `board` around the cell (0, 0).
    pub fn new(board: &'b Board) -> (widget: BoardWidget<'b>)
        ensures
            widget.shown() == board@,
            widget.origin() == (Point { x: 0, y: 0 }),
    {
        BoardWidget { board, origin: Point::default() }
    }

    /// The same view around the cell `origin`.
    pub fn pan_to(self, origin: Point) -> (widget: BoardWidget<'b>)
        ensures
            widget.shown() == self.shown(),
            widget.origin() == origin,
    {
        let mut widget = self;
        widget.origin = origin;
        widget
    }

    /// Whether the board can be drawn into `area`: the area is on the screen
    /// and the cell shown in its top left corner has coordinates that fit in
    /// an `i64`.
    pub open spec fn can_draw(&self, area: Area) -> bool {
        &&& area.fits()
        &&& i64::MIN <= self.corner(area).0
        &&& i64::MIN <= self.corner(area).1
    }

    /// Whether the board can be drawn into `area`.
    pub fn can_mark(&self, area: Area) -> (ok: bool)
        ensures
            ok == self.can_draw(area),
    {
        area.x as u32 + area.width as u32 <= 0x1_0000u32 && area.y as u32 + area.height as u32
            <= 0x1_0000u32 && self.origin.x >= i64::MIN + area.width as i64 / 2 && self.origin.y
            >= i64::MIN + area.height as i64 / 2
    }

    /// The screen cells of `area` that show a live cell, each once, in no
    /// particular order, each by its column and its row.
    pub fn marks(&self, area: Area) -> (marked: Vec<(u16, u16)>)
        requires
            self.can_draw(area),
        ensures
            marked@.no_duplicates(),
            forall|x: u16, y: u16| #[trigger]
                marked@.contains((x, y)) <==> area.holds(x as int, y as int)
                    && self.shown().contains(self.cell_at(area, x as int, y as int)),
    {
        let corner = self.origin - Point::new(area.width as i64 / 2, area.height as i64 / 2);
        let inside = self.board.window(corner, area.width, area.height);
        let mut marked: Vec<(u16, u16)> = Vec::new();
        let mut i: usize = 0;
        while i < inside.len()
            invariant
                i <= inside.len(),
                area.fits(),
                marked.len() == i,
                forall|j: int|
                    0 <= j < i ==> {
                        &&& (#[trigger] marked[j]).0 == area.x + inside[j].1
                        &&& marked[j].1 == area.y + inside[j].2
                    },
                forall|j: int|
                    0 <= j < inside.len() ==> {
                        &&& (#[trigger] inside[j]).1 == inside[j].0.x - corner.x
                        &&& inside[j].2 == inside[j].0.y - corner.y
                        &&& inside[j].1 < area.width
                        &&& inside[j].2 < area.height
                    },
            decreases inside.len() - i,
        {
            let (_point, dx, dy) = inside[i];
            marked.push((area.x + dx, area.y + dy));
            i += 1;
        }
        proof {
            let points = entry_points(inside@);
            assert forall|a: int, b: int|
                0 <= a < marked.len() && 0 <= b < marked.len() && a != b implies marked[a]
                != marked[b] by {
                assert(points[a] != points[b]);
            }
            assert forall|x: u16, y: u16| #[trigger]
                marked@.contains((x, y)) <==> area.holds(x as int, y as int)
                    && self.shown().contains(self.cell_at(area, x as int, y as int)) by {
                let c = self.cell_at(area, x as int, y as int);
                if marked@.contains((x, y)) {
                    let j = choose|j: int| 0 <= j < marked.len() && marked[j] == (x, y);
                    assert(points[j]@ == c);
                    assert(cells_of(points).contains(c));
                }
                if area.holds(x as int, y as int) && self.shown().contains(c) {
                    assert(cells_of(points).contains(c));
                    let j = choose|j: int| 0 <= j < points.len() && #[trigger] points[j]@ == c;
                    assert(marked[j] == (x, y));
                }
            }
        }
        marked
    }
}

} // verus!
