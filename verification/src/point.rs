//! Integer coordinates on the unbounded plane.

use crate::rules::neighbor;
use vstd::prelude::*;
use vstd::std_specs::convert::FromSpecImpl;
use vstd::std_specs::ops::{AddSpecImpl, SubSpecImpl};

verus! {

/// A position on the plane. The `y` axis points upward.
#[derive(Debug, PartialEq, Eq, Hash, Clone, Copy, Structural)]
pub struct Point {
    pub x: i64,
    pub y: i64,
}

impl View for Point {
    type V = (int, int);

    open spec fn view(&self) -> (int, int) {
        (self.x as int, self.y as int)
    }
}

impl Point {
    /// The point with the given coordinates.
    pub fn new(x: i64, y: i64) -> (p: Point)
        ensures
            p == (Point { x, y }),
    {
        Point { x, y }
    }

    /// The point on the horizontal axis at `x`.
    pub fn x(x: i64) -> (p: Point)
        ensures
            p == (Point { x, y: 0 }),
    {
        Point { x, ..Point::default() }
    }

    /// The point on the vertical axis at `y`.
    pub fn y(y: i64) -> (p: Point)
        ensures
            p == (Point { x: 0, y }),
    {
        Point { y, ..Point::default() }
    }

    /// Moves the point by `x` along the horizontal axis.
    pub fn dx(&mut self, x: i64)
        requires
            i64::MIN <= old(self).x + x <= i64::MAX,
        ensures
            final(self).x == old(self).x + x,
            final(self).y == old(self).y,
    {
        self.x += x;
    }

    /// Moves the point by `y` along the vertical axis.
    pub fn dy(&mut self, y: i64)
        requires
            i64::MIN <= old(self).y + y <= i64::MAX,
        ensures
            final(self).x == old(self).x,
            final(self).y == old(self).y + y,
    {
        self.y += y;
    }

    /// Whether all eight neighbours of the point have coordinates that fit in
    /// an `i64`.
    pub open spec fn is_interior(self) -> bool {
        &&& i64::MIN < self.x < i64::MAX
        &&& i64::MIN < self.y < i64::MAX
    }

    /// The `k`-th neighbour of the point, in the order of
    /// [`neighbor`](crate::rules::neighbor).
    pub open spec fn neighbor(self, k: int) -> Point
        recommends
            self.is_interior(),
    {
        let c = neighbor(self@, k);
        Point { x: c.0 as i64, y: c.1 as i64 }
    }
}

/// The coordinates of the points of a list, as a set.
pub open spec fn cells_of(points: Seq<Point>) -> Set<(int, int)> {
    Set::new(|c: (int, int)| exists|i: int| 0 <= i < points.len() && #[trigger] points[i]@ == c)
}

/// Adding a point at the end of a list adds its coordinates to the set.
pub proof fn lemma_cells_of_push(points: Seq<Point>, p: Point)
    ensures
        cells_of(points.push(p)) == cells_of(points).insert(p@),
{
    let longer = points.push(p);
    assert forall|c: (int, int)| cells_of(longer).contains(c) == cells_of(points).insert(
        p@,
    ).contains(c) by {
        if cells_of(points).contains(c) {
            let i = choose|i: int| 0 <= i < points.len() && #[trigger] points[i]@ == c;
            assert(longer[i]@ == c);
        }
        if c == p@ {
            assert(longer[points.len() as int]@ == c);
        }
    }
}

impl Default for Point {
    fn default() -> (p: Point)
        ensures
            p == (Point { x: 0, y: 0 }),
    {
        Point { x: 0, y: 0 }
    }
}

impl From<(i64, i64)> for Point {
    fn from(value: (i64, i64)) -> (p: Point) {
        Point { x: value.0, y: value.1 }
    }
}

impl FromSpecImpl<(i64, i64)> for Point {
    open spec fn obeys_from_spec() -> bool {
        true
    }

    open spec fn from_spec(value: (i64, i64)) -> Point {
        Point { x: value.0, y: value.1 }
    }
}

impl std::ops::Add for Point {
    type Output = Point;

    fn add(self, rhs: Point) -> (sum: Point) {
        Point { x: self.x + rhs.x, y: self.y + rhs.y }
    }
}

impl AddSpecImpl for Point {
    open spec fn obeys_add_spec() -> bool {
        true
    }

    open spec fn add_req(self, rhs: Point) -> bool {
        &&& i64::MIN <= self.x + rhs.x <= i64::MAX
        &&& i64::MIN <= self.y + rhs.y <= i64::MAX
    }

    open spec fn add_spec(self, rhs: Point) -> Point {
        Point { x: (self.x + rhs.x) as i64, y: (self.y + rhs.y) as i64 }
    }
}

impl std::ops::AddAssign for Point {
    fn add_assign(&mut self, rhs: Point)
        requires
            i64::MIN <= old(self).x + rhs.x <= i64::MAX,
            i64::MIN <= old(self).y + rhs.y <= i64::MAX,
        ensures
            final(self).x == old(self).x + rhs.x,
            final(self).y == old(self).y + rhs.y,
    {
        self.x += rhs.x;
        self.y += rhs.y;
    }
}

impl std::ops::Sub for Point {
    type Output = Point;

    fn sub(self, rhs: Point) -> (difference: Point) {
        Point { x: self.x - rhs.x, y: self.y - rhs.y }
    }
}

impl SubSpecImpl for Point {
    open spec fn obeys_sub_spec() -> bool {
        true
    }

    open spec fn sub_req(self, rhs: Point) -> bool {
        &&& i64::MIN <= self.x - rhs.x <= i64::MAX
        &&& i64::MIN <= self.y - rhs.y <= i64::MAX
    }

    open spec fn sub_spec(self, rhs: Point) -> Point {
        Point { x: (self.x - rhs.x) as i64, y: (self.y - rhs.y) as i64 }
    }
}

impl std::ops::SubAssign for Point {
    fn sub_assign(&mut self, rhs: Point)
        requires
            i64::MIN <= old(self).x - rhs.x <= i64::MAX,
            i64::MIN <= old(self).y - rhs.y <= i64::MAX,
        ensures
            final(self).x == old(self).x - rhs.x,
            final(self).y == old(self).y - rhs.y,
    {
        self.x -= rhs.x;
        self.y -= rhs.y;
    }
}

} // verus!
