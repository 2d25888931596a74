use game_of_life::board::{Board, Cell, Neighbors};
use game_of_life::point::Point;

fn sorted(board: &Board) -> Vec<(i64, i64)> {
    let mut list: Vec<(i64, i64)> = board.iter().iter().map(|p| (p.x, p.y)).collect();
    list.sort();
    list
}

fn walk(mut around: Neighbors<'_>) -> Vec<Cell> {
    let mut cells = Vec::new();
    while let Some(cell) = around.next() {
        cells.push(cell);
    }
    cells
}

#[test]
fn a_new_board_is_dead_everywhere() {
    let board = Board::default();
    assert!(board.iter().is_empty());
    assert_eq!(board.query(&Point::new(0, 0)), Cell::Dead(Point::new(0, 0)));
    assert_eq!(board.query(&Point::new(-9, 9)), Cell::Dead(Point::new(-9, 9)));
}

#[test]
fn query_tells_alive_from_dead() {
    let board = Board::from([Point::new(1, 2), Point::new(-3, -4)]);
    assert_eq!(board.query(&Point::new(1, 2)), Cell::Alive(Point::new(1, 2)));
    assert_eq!(board.query(&Point::new(-3, -4)), Cell::Alive(Point::new(-3, -4)));
    assert_eq!(board.query(&Point::new(2, 1)), Cell::Dead(Point::new(2, 1)));
    assert_eq!(board.query(&Point::new(i64::MAX, i64::MIN)), Cell::Dead(Point::new(i64::MAX, i64::MIN)));
}

#[test]
fn birth_is_idempotent() {
    let mut board = Board::default();
    board.birth_cell(&Point::new(1, 1));
    let once = board.clone();
    board.birth_cell(&Point::new(1, 1));
    assert_eq!(board, once);
    assert_eq!(sorted(&board), vec![(1, 1)]);
}

#[test]
fn kill_is_idempotent_and_harmless_on_dead_cells() {
    let mut board = Board::from([Point::new(1, 1), Point::new(2, 2)]);
    board.kill_cell(&Point::new(3, 3));
    assert_eq!(sorted(&board), vec![(1, 1), (2, 2)]);
    board.kill_cell(&Point::new(1, 1));
    assert_eq!(sorted(&board), vec![(2, 2)]);
    board.kill_cell(&Point::new(1, 1));
    assert_eq!(sorted(&board), vec![(2, 2)]);
}

#[test]
fn toggle_flips_a_cell() {
    let mut board = Board::default();
    board.toggle_cell(&Point::new(4, 5));
    assert_eq!(board.query(&Point::new(4, 5)), Cell::Alive(Point::new(4, 5)));
    board.toggle_cell(&Point::new(4, 5));
    assert_eq!(board.query(&Point::new(4, 5)), Cell::Dead(Point::new(4, 5)));
}

#[test]
fn toggling_twice_gives_the_board_back() {
    let start = Board::from([Point::new(0, 0), Point::new(1, 0), Point::new(-7, 3)]);
    for p in [Point::new(0, 0), Point::new(5, 5), Point::new(-7, 3), Point::new(i64::MIN, i64::MAX)] {
        let mut board = start.clone();
        board.toggle_cell(&p);
        assert_ne!(board, start);
        board.toggle_cell(&p);
        assert_eq!(board, start);
    }
}

#[test]
fn clear_kills_every_cell() {
    let mut board = Board::from([Point::new(0, 0), Point::new(1, 0), Point::new(-7, 3)]);
    board.clear();
    assert_eq!(board, Board::default());
    assert!(board.iter().is_empty());
}

#[test]
fn from_an_array_keeps_each_point_once() {
    let board = Board::from([Point::new(2, 2), Point::new(1, 1), Point::new(2, 2)]);
    assert_eq!(sorted(&board), vec![(1, 1), (2, 2)]);
    let empty: [Point; 0] = [];
    assert_eq!(Board::from(empty), Board::default());
}

#[test]
fn boards_are_equal_when_the_same_cells_live() {
    let a = Board::from([Point::new(1, 1), Point::new(2, 2), Point::new(3, 3)]);
    let b = Board::from([Point::new(3, 3), Point::new(1, 1), Point::new(2, 2)]);
    let c = Board::from([Point::new(3, 3), Point::new(1, 1)]);
    let d = Board::from([Point::new(3, 3), Point::new(1, 1), Point::new(2, 3)]);
    assert_eq!(a, b);
    assert_ne!(a, c);
    assert_ne!(c, a);
    assert_ne!(a, d);
}

#[test]
fn iter_can_be_taken_again() {
    let board = Board::from([Point::new(1, 1), Point::new(2, 2)]);
    assert_eq!(sorted(&board), vec![(1, 1), (2, 2)]);
    assert_eq!(sorted(&board), vec![(1, 1), (2, 2)]);
    assert_eq!(board.iter().len(), 2);
}

#[test]
fn neighbors_come_counterclockwise_from_the_right() {
    let board = Board::default();
    let cells = walk(board.neighbors(&Point::new(10, -20)));
    assert_eq!(
        cells,
        vec![
            Cell::Dead(Point::new(11, -20)),
            Cell::Dead(Point::new(11, -19)),
            Cell::Dead(Point::new(10, -19)),
            Cell::Dead(Point::new(9, -19)),
            Cell::Dead(Point::new(9, -20)),
            Cell::Dead(Point::new(9, -21)),
            Cell::Dead(Point::new(10, -21)),
            Cell::Dead(Point::new(11, -21)),
        ]
    );
}

#[test]
fn neighbors_tell_alive_from_dead() {
    let board = Board::from([Point::new(0, 0), Point::new(1, 1), Point::new(-1, 0), Point::new(0, -1)]);
    let cells = walk(board.neighbors(&Point::new(0, 0)));
    assert_eq!(
        cells,
        vec![
            Cell::Dead(Point::new(1, 0)),
            Cell::Alive(Point::new(1, 1)),
            Cell::Dead(Point::new(0, 1)),
            Cell::Dead(Point::new(-1, 1)),
            Cell::Alive(Point::new(-1, 0)),
            Cell::Dead(Point::new(-1, -1)),
            Cell::Alive(Point::new(0, -1)),
            Cell::Dead(Point::new(1, -1)),
        ]
    );
}

#[test]
fn neighbors_are_eight_however_many_live() {
    let mut board = Board::default();
    let center = Point::new(3, 3);
    assert_eq!(walk(board.neighbors(&center)).len(), 8);
    for x in 2..=4 {
        for y in 2..=4 {
            board.birth_cell(&Point::new(x, y));
            assert_eq!(walk(Neighbors::new(&board, center)).len(), 8);
        }
    }
    let all = walk(board.neighbors(&center));
    assert!(all.iter().all(|c| matches!(c, Cell::Alive(_))));
}

#[test]
fn neighbors_work_next_to_the_edge_of_the_plane() {
    let board = Board::from([Point::new(i64::MAX, i64::MIN)]);
    let cells = walk(board.neighbors(&Point::new(i64::MAX - 1, i64::MIN + 1)));
    assert_eq!(cells[0], Cell::Dead(Point::new(i64::MAX, i64::MIN + 1)));
    assert_eq!(cells[3], Cell::Dead(Point::new(i64::MAX - 2, i64::MIN + 2)));
    assert_eq!(cells[7], Cell::Alive(Point::new(i64::MAX, i64::MIN)));
}

#[test]
fn size_hint_counts_down_from_eight() {
    let board = Board::default();
    let mut around = board.neighbors(&Point::new(0, 0));
    for left in (1..=8usize).rev() {
        assert_eq!(around.size_hint(), (left, Some(left)));
        assert!(around.next().is_some());
    }
    assert_eq!(around.size_hint(), (0, Some(0)));
    assert_eq!(around.next(), None);
    assert_eq!(around.next(), None);
    assert_eq!(around.size_hint(), (0, Some(0)));
}

#[test]
fn window_gives_the_cells_inside_with_their_offsets() {
    let board = Board::from([
        Point::new(0, 0),
        Point::new(3, 2),
        Point::new(4, 0),
        Point::new(0, 3),
        Point::new(-1, 0),
        Point::new(2, -1),
        Point::new(2, 1),
    ]);
    let mut inside: Vec<((i64, i64), u16, u16)> =
        board.window(Point::new(0, 0), 4, 3).into_iter().map(|(p, dx, dy)| ((p.x, p.y), dx, dy)).collect();
    inside.sort();
    assert_eq!(inside, vec![((0, 0), 0, 0), ((2, 1), 2, 1), ((3, 2), 3, 2)]);

    let mut moved: Vec<((i64, i64), u16, u16)> =
        board.window(Point::new(-1, -1), 4, 3).into_iter().map(|(p, dx, dy)| ((p.x, p.y), dx, dy)).collect();
    moved.sort();
    assert_eq!(moved, vec![((-1, 0), 0, 1), ((0, 0), 1, 1), ((2, -1), 3, 0), ((2, 1), 3, 2)]);
}

#[test]
fn an_empty_window_holds_nothing() {
    let board = Board::from([Point::new(0, 0)]);
    assert!(board.window(Point::new(0, 0), 0, 5).is_empty());
    assert!(board.window(Point::new(0, 0), 5, 0).is_empty());
    assert_eq!(board.window(Point::new(0, 0), 1, 1).len(), 1);
}

#[test]
fn window_works_across_the_whole_plane() {
    let board = Board::from([Point::new(i64::MAX, i64::MAX), Point::new(i64::MIN, i64::MIN)]);
    let far: Vec<((i64, i64), u16, u16)> = board
        .window(Point::new(i64::MIN, i64::MIN), u16::MAX, u16::MAX)
        .into_iter()
        .map(|(p, dx, dy)| ((p.x, p.y), dx, dy))
        .collect();
    assert_eq!(far, vec![((i64::MIN, i64::MIN), 0, 0)]);
    let near: Vec<((i64, i64), u16, u16)> = board
        .window(Point::new(i64::MAX - 10, i64::MAX - 20), 11, 21)
        .into_iter()
        .map(|(p, dx, dy)| ((p.x, p.y), dx, dy))
        .collect();
    assert_eq!(near, vec![((i64::MAX, i64::MAX), 10, 20)]);
    assert!(board.window(Point::new(i64::MAX - 10, i64::MAX - 20), 10, 21).is_empty());
}
