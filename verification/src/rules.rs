//! The rules of the Game of Life, stated over sets of integer coordinates.
//!
//! A generation is the set of its live cells. Nothing here is executable: this
//! module is the mathematical model that the board and the session are held to.

use vstd::prelude::*;

verus! {

/// The `k`-th neighbour of `c`, counting counterclockwise from the cell to its
/// right: right, up-right, up, up-left, left, down-left, down, down-right.
pub open spec fn neighbor(c: (int, int), k: int) -> (int, int) {
    if k == 0 {
        (c.0 + 1, c.1)
    } else if k == 1 {
        (c.0 + 1, c.1 + 1)
    } else if k == 2 {
        (c.0, c.1 + 1)
    } else if k == 3 {
        (c.0 - 1, c.1 + 1)
    } else if k == 4 {
        (c.0 - 1, c.1)
    } else if k == 5 {
        (c.0 - 1, c.1 - 1)
    } else if k == 6 {
        (c.0, c.1 - 1)
    } else {
        (c.0 + 1, c.1 - 1)
    }
}

/// Whether `a` and `b` are distinct cells that touch, by a side or by a corner.
pub open spec fn adjacent(a: (int, int), b: (int, int)) -> bool {
    &&& a != b
    &&& -1 <= a.0 - b.0 <= 1
    &&& -1 <= a.1 - b.1 <= 1
}

/// 1 if `c` is alive in `live`, 0 if not.
pub open spec fn population(live: Set<(int, int)>, c: (int, int)) -> nat {
    if live.contains(c) {
        1
    } else {
        0
    }
}

/// How many of the first `k` neighbours of `c` are alive.
pub open spec fn live_among(live: Set<(int, int)>, c: (int, int), k: int) -> nat {
    (if k > 0 { population(live, neighbor(c, 0)) } else { 0 })
    + (if k > 1 { population(live, neighbor(c, 1)) } else { 0 })
    + (if k > 2 { population(live, neighbor(c, 2)) } else { 0 })
    + (if k > 3 { population(live, neighbor(c, 3)) } else { 0 })
    + (if k > 4 { population(live, neighbor(c, 4)) } else { 0 })
    + (if k > 5 { population(live, neighbor(c, 5)) } else { 0 })
    + (if k > 6 { population(live, neighbor(c, 6)) } else { 0 })
    + (if k > 7 { population(live, neighbor(c, 7)) } else { 0 })
}

/// How many of the eight neighbours of `c` are alive.
pub open spec fn live_neighbors(live: Set<(int, int)>, c: (int, int)) -> nat {
    live_among(live, c, 8)
}

/// Whether a live cell with `n` live neighbours stays alive.
pub open spec fn survives(n: nat) -> bool {
    n == 2 || n == 3
}

/// Whether a dead cell with `n` live neighbours comes to life.
pub open spec fn is_born(n: nat) -> bool {
    n == 3
}

/// Whether `c` is alive in the generation that follows `live`.
pub open spec fn alive_next(live: Set<(int, int)>, c: (int, int)) -> bool {
    if live.contains(c) {
        survives(live_neighbors(live, c))
    } else {
        is_born(live_neighbors(live, c))
    }
}

/// The live cells of `live` that do not survive.
pub open spec fn dying(live: Set<(int, int)>) -> Set<(int, int)> {
    Set::new(|c: (int, int)| live.contains(c) && !survives(live_neighbors(live, c)))
}

/// The dead cells of `live` that come to life.
pub open spec fn newborn(live: Set<(int, int)>) -> Set<(int, int)> {
    Set::new(|c: (int, int)| !live.contains(c) && is_born(live_neighbors(live, c)))
}

/// The generation that follows `live`: every cell of the plane is judged by
/// its neighbours in `live`, all at once.
pub open spec fn next_generation(live: Set<(int, int)>) -> Set<(int, int)> {
    Set::new(|c: (int, int)| alive_next(live, c))
}

/// The generation reached from `live` after `n` steps.
pub open spec fn generation_after(live: Set<(int, int)>, n: nat) -> Set<(int, int)>
    decreases n,
{
    if n == 0 {
        live
    } else {
        next_generation(generation_after(live, (n - 1) as nat))
    }
}

/// The eight neighbours of a cell are exactly the cells adjacent to it.
pub proof fn lemma_neighbors_are_adjacent(a: (int, int), b: (int, int))
    ensures
        adjacent(a, b) <==> exists|k: int| 0 <= k < 8 && #[trigger] neighbor(a, k) == b,
{
    if adjacent(a, b) {
        let k: int = if b.0 - a.0 == 1 {
            if b.1 == a.1 {
                0
            } else if b.1 - a.1 == 1 {
                1
            } else {
                7
            }
        } else if b.0 == a.0 {
            if b.1 - a.1 == 1 {
                2
            } else {
                6
            }
        } else {
            if b.1 - a.1 == 1 {
                3
            } else if b.1 == a.1 {
                4
            } else {
                5
            }
        };
        assert(neighbor(a, k) == b);
    }
}

/// Stepping back from the `k`-th neighbour in the opposite direction returns
/// to the cell one started from.
pub proof fn lemma_opposite_neighbor(c: (int, int), k: int)
    requires
        0 <= k < 8,
    ensures
        neighbor(neighbor(c, k), (k + 4) % 8) == c,
{
}

/// A cell with a live neighbour is itself a neighbour of a live cell.
pub proof fn lemma_near_a_live_cell(live: Set<(int, int)>, c: (int, int))
    requires
        live_neighbors(live, c) > 0,
    ensures
        exists|r: (int, int), k: int|
            live.contains(r) && 0 <= k < 8 && #[trigger] neighbor(r, k) == c,
{
    let j: int = if live.contains(neighbor(c, 0)) {
        0
    } else if live.contains(neighbor(c, 1)) {
        1
    } else if live.contains(neighbor(c, 2)) {
        2
    } else if live.contains(neighbor(c, 3)) {
        3
    } else if live.contains(neighbor(c, 4)) {
        4
    } else if live.contains(neighbor(c, 5)) {
        5
    } else if live.contains(neighbor(c, 6)) {
        6
    } else {
        7
    };
    lemma_opposite_neighbor(c, j);
}

/// The next generation is what remains of the current one once the dying
/// cells are taken out, together with the newborn cells; no cell is both.
pub proof fn lemma_next_generation_by_parts(live: Set<(int, int)>)
    ensures
        next_generation(live) == live.difference(dying(live)).union(newborn(live)),
        dying(live).disjoint(newborn(live)),
{
}

/// A live cell with no live cell around it dies, and nothing is born.
pub proof fn lemma_lonely_cell_dies(c: (int, int))
    ensures
        next_generation(set![c]) == Set::<(int, int)>::empty(),
{
}

/// Two adjacent live cells with no other live cell around them both die, and
/// nothing is born.
pub proof fn lemma_lonely_pair_dies(a: (int, int), b: (int, int))
    requires
        adjacent(a, b),
    ensures
        next_generation(set![a, b]) == Set::<(int, int)>::empty(),
{
}

/// A block of two by two live cells stays what it is, wherever it lies.
pub proof fn lemma_block_is_still(c: (int, int))
    ensures
        ({
            let block = set![c, (c.0 + 1, c.1), (c.0 + 1, c.1 + 1), (c.0, c.1 + 1)];
            next_generation(block) == block
        }),
{
}

/// A live cell with a live cell at each of its four corners, and nothing else
/// around, dies of overpopulation and the corners of underpopulation, while
/// the four cells beside it are born: all judged at once by the generation
/// before.
pub proof fn lemma_cross_becomes_diamond(c: (int, int))
    ensures
        next_generation(
            set![
                c,
                (c.0 + 1, c.1 + 1),
                (c.0 - 1, c.1 + 1),
                (c.0 - 1, c.1 - 1),
                (c.0 + 1, c.1 - 1),
            ],
        ) == set![(c.0 + 1, c.1), (c.0, c.1 + 1), (c.0 - 1, c.1), (c.0, c.1 - 1)],
{
}

/// The empty generation is followed by the empty generation.
pub proof fn lemma_empty_stays_empty(n: nat)
    ensures
        generation_after(Set::<(int, int)>::empty(), n) == Set::<(int, int)>::empty(),
    decreases n,
{
    if n > 0 {
        lemma_empty_stays_empty((n - 1) as nat);
    }
}

} // verus!
