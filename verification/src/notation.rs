//! Boards written down as text.
//!
//! A board is drawn as a block of lines, one line for each row and one
//! character for each cell: `.` for a dead cell, `x` for a live one. The block
//! is drawn the way it looks: the last line is the row `y = 0`, the line above
//! it the row `y = 1`, and the first character of a line is the column
//! `x = 0`.

use crate::board::Board;
use crate::game::{GameError, GameErrorKind};
use crate::point::Point;
use std::str::FromStr;
use vstd::prelude::*;

verus! {

/// How many characters of `text` come before its first line feed: all of
/// them, if it has none.
pub open spec fn first_line_len(text: Seq<char>) -> nat
    decreases text.len(),
{
    if text.len() == 0 || text[0] == '\n' {
        0
    } else {
        1 + first_line_len(text.drop_first())
    }
}

/// `line` without the carriage return at its end, if it has one there.
pub open spec fn without_return(line: Seq<char>) -> Seq<char> {
    if line.len() > 0 && line.last() == '\r' {
        line.drop_last()
    } else {
        line
    }
}

/// The lines of `text`. A line ends at a line feed, or at a carriage return
/// followed by a line feed; neither belongs to the line. What follows the last
/// line feed is a line of its own unless it is empty.
pub open spec fn lines(text: Seq<char>) -> Seq<Seq<char>>
    decreases text.len(),
{
    if text.len() == 0 {
        Seq::empty()
    } else {
        let n = first_line_len(text) as int;
        if n >= text.len() {
            seq![text]
        } else {
            seq![without_return(text.take(n))] + lines(text.skip(n + 1))
        }
    }
}

/// The rows of the board that `text` draws, the row `y = 0` first.
pub open spec fn rows(text: Seq<char>) -> Seq<Seq<char>> {
    let lines = lines(text);
    Seq::new(lines.len(), |y: int| lines[lines.len() - 1 - y])
}

/// Whether `c` stands for a cell.
pub open spec fn is_cell_char(c: char) -> bool {
    c == '.' || c == 'x'
}

/// Whether `rows` holds, in row `y` and column `x`, a character that stands
/// for no cell.
pub open spec fn is_invalid_at(rows: Seq<Seq<char>>, y: int, x: int) -> bool {
    &&& 0 <= y < rows.len()
    &&& 0 <= x < rows[y].len()
    &&& !is_cell_char(rows[y][x])
}

/// Whether every character of `rows` stands for a cell.
pub open spec fn is_valid(rows: Seq<Seq<char>>) -> bool {
    forall|y: int, x: int| !is_invalid_at(rows, y, x)
}

/// Whether the character in row `y` and column `x` is the first of `rows`
/// that stands for no cell, reading the rows from `y = 0` upward and each row
/// from `x = 0` onward.
pub open spec fn is_first_invalid_at(rows: Seq<Seq<char>>, y: int, x: int) -> bool {
    &&& is_invalid_at(rows, y, x)
    &&& forall|v: int, u: int| is_invalid_at(rows, v, u) ==> y < v || (y == v && x <= u)
}

/// Whether `rows` draws a live cell at `c`.
pub open spec fn is_drawn_alive(rows: Seq<Seq<char>>, c: (int, int)) -> bool {
    &&& 0 <= c.1 < rows.len()
    &&& 0 <= c.0 < rows[c.1].len()
    &&& rows[c.1][c.0] == 'x'
}

/// What reading `text` as a board gives: the live cells, or the first
/// character that stands for no cell together with the index of its row.
pub open spec fn reads_as(text: Seq<char>, result: Result<Board, GameError>) -> bool {
    match result {
        Ok(board) => {
            &&& is_valid(rows(text))
            &&& forall|p: Point| board@.contains(p@) <==> is_drawn_alive(rows(text), p@)
        },
        Err(error) => exists|y: int, x: int|
            {
                &&& #[trigger] is_first_invalid_at(rows(text), y, x)
                &&& error@ matches GameErrorKind::InvalidBoardChar { c, line, s }
                &&& c == rows(text)[y][x]
                &&& line == y % 0x1_0000
                &&& s@ == text
            },
    }
}

/// The first line of a text ends at its first line feed.
proof fn lemma_first_line_len(text: Seq<char>, n: int)
    requires
        0 <= n <= text.len(),
        forall|j: int| 0 <= j < n ==> text[j] != '\n',
        n < text.len() ==> text[n] == '\n',
    ensures
        first_line_len(text) == n,
    decreases n,
{
    if n > 0 {
        lemma_first_line_len(text.drop_first(), n - 1);
    }
}

/// Every character of `text`, in order.
fn chars_of(text: &str) -> (chars: Vec<char>)
    ensures
        chars@ == text@,
{
    let mut chars: Vec<char> = Vec::new();
    for c in it: text.chars()
        invariant
            it.seq() == text@,
            chars.len() == it.index(),
            forall|i: int| 0 <= i < chars.len() ==> chars[i] == it.seq()[i],
    {
        chars.push(c);
    }
    chars
}

/// The characters of `text` from index `from` up to, and without, index `to`.
fn copy_range(text: &Vec<char>, from: usize, to: usize) -> (part: Vec<char>)
    requires
        from <= to <= text.len(),
    ensures
        part@ == text@.subrange(from as int, to as int),
{
    let mut part: Vec<char> = Vec::new();
    let mut i: usize = from;
    while i < to
        invariant
            from <= i <= to <= text.len(),
            part@ == text@.subrange(from as int, i as int),
        decreases to - i,
    {
        part.push(text[i]);
        i += 1;
    }
    part
}

/// The coordinate that an index into the text stands for, if it fits in an
/// `i64`.
fn coordinate(index: usize) -> (at: Option<i64>)
    ensures
        match at {
            Some(value) => value == index,
            None => index > i64::MAX,
        },
{
    if index as u64 <= 0x7fff_ffff_ffff_ffffu64 {
        Some(index as i64)
    } else {
        None
    }
}

/// The views of the rows of a table of characters.
spec fn row_views(table: Seq<Vec<char>>) -> Seq<Seq<char>> {
    Seq::new(table.len(), |i: int| table[i]@)
}

/// Splits `text` into its lines.
fn split_lines(text: &Vec<char>) -> (table: Vec<Vec<char>>)
    ensures
        row_views(table@) == lines(text@),
{
    let mut table: Vec<Vec<char>> = Vec::new();
    let mut start: usize = 0;
    let mut i: usize = 0;
    assert(text@.skip(0) == text@);
    while i < text.len()
        invariant
            start <= i <= text.len(),
            forall|j: int| start <= j < i ==> text[j] != '\n',
            lines(text@) == row_views(table@) + lines(text@.skip(start as int)),
        decreases text.len() - i,
    {
        if text[i] == '\n' {
            let end: usize = if i > start && text[i - 1] == '\r' {
                i - 1
            } else {
                i
            };
            let line = copy_range(text, start, end);
            proof {
                let rest = text@.skip(start as int);
                let n = i - start;
                lemma_first_line_len(rest, n);
                assert(rest.skip(n + 1) == text@.skip(i + 1));
                assert(line@ == without_return(rest.take(n)));
            }
            table.push(line);
            start = i + 1;
        }
        i += 1;
    }
    if start < text.len() {
        let line = copy_range(text, start, text.len());
        proof {
            let rest = text@.skip(start as int);
            lemma_first_line_len(rest, rest.len() as int);
        }
        table.push(line);
    }
    table
}

impl FromStr for Board {
    type Err = GameError;

    /// Reads a board from its drawing.
    ///
    /// The rows are read from the last line upward and each row from its first
    /// character onward; the first character that stands for no cell ends the
    /// reading with an error.
    fn from_str(s: &str) -> (result: Result<Board, GameError>)
        ensures
            reads_as(s@, result),
    {
        let text = chars_of(s);
        let table = split_lines(&text);
        let ghost grid = rows(s@);
        let height: usize = table.len();
        let mut board = Board::default();
        let mut y: usize = 0;
        while y < height
            invariant
                y <= height,
                height == table.len(),
                grid == rows(s@),
                row_views(table@) == lines(s@),
                forall|v: int, u: int| 0 <= v < y ==> !is_invalid_at(grid, v, u),
                forall|p: Point|
                    #[trigger] board@.contains(p@) <==> is_drawn_alive(grid, p@) && p.y < y,
            decreases height - y,
        {
            let row = &table[height - 1 - y];
            assert(row@ == grid[y as int]);
            let mut x: usize = 0;
            while x < row.len()
                invariant
                    x <= row.len(),
                    y < height,
                    height == table.len(),
                    grid == rows(s@),
                    grid.len() == height,
                    row@ == grid[y as int],
                    forall|v: int, u: int| 0 <= v < y ==> !is_invalid_at(grid, v, u),
                    forall|u: int| 0 <= u < x ==> !is_invalid_at(grid, y as int, u),
                    forall|p: Point|
                        #[trigger] board@.contains(p@) <==> is_drawn_alive(grid, p@) && (p.y < y
                            || (p.y == y && p.x < x)),
                decreases row.len() - x,
            {
                let c = row[x];
                if c == '.' {
                    // a dead cell: nothing to do
                } else if c == 'x' {
                    if let (Some(px), Some(py)) = (coordinate(x), coordinate(y)) {
                        board.birth_cell(&Point::new(px, py));
                    }
                } else {
                    let error = GameError::new(
                        GameErrorKind::InvalidBoardChar {
                            c,
                            s: s.to_owned(),
                            line: (y % 0x1_0000) as u16,
                        },
                    );
                    assert(is_first_invalid_at(grid, y as int, x as int));
                    return Err(error);
                }
                x += 1;
            }
            y += 1;
        }
        Ok(board)
    }
}

} // verus!
