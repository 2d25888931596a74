use game_of_life::board::Board;
use game_of_life::point::Point;
use game_of_life::widgets::{contains, within, Area, BoardWidget};

fn sorted(mut marks: Vec<(u16, u16)>) -> Vec<(u16, u16)> {
    marks.sort();
    marks
}

#[test]
fn within_tells_inside_from_outside() {
    let area = Area { x: 10, y: 20, width: 3, height: 2 };
    assert!(within(&area, 10, 20));
    assert!(within(&area, 12, 21));
    assert!(!within(&area, 13, 20));
    assert!(!within(&area, 10, 22));
    assert!(!within(&area, 9, 20));
    assert!(!within(&area, 10, 19));
    assert!(!within(&Area::default(), 0, 0));
}

#[test]
fn within_works_at_the_far_edge_of_the_screen() {
    let area = Area { x: 65530, y: 65530, width: 6, height: 6 };
    assert!(within(&area, 65535, 65535));
    assert!(within(&area, 65530, 65530));
    assert!(!within(&area, 65529, 65535));
    let wide = Area { x: 65535, y: 0, width: 65535, height: 1 };
    assert!(within(&wide, 65535, 0));
    assert!(!within(&wide, 0, 0));
}

#[test]
fn contains_gives_the_offset_from_the_corner() {
    let area = Area { x: 10, y: 20, width: 3, height: 2 };
    assert_eq!(contains(area, 10, 20), Some((0, 0)));
    assert_eq!(contains(area, 12, 21), Some((2, 1)));
    assert_eq!(contains(area, 13, 21), None);
    assert_eq!(contains(area, 12, 22), None);
    assert_eq!(contains(area, 9, 21), None);
    assert_eq!(contains(Area { x: 0, y: 0, width: 65535, height: 65535 }, 65534, 7), Some((65534, 7)));
}

#[test]
fn the_origin_is_shown_in_the_middle() {
    let board = Board::from([Point::new(0, 0)]);
    let widget = BoardWidget::new(&board);
    let area = Area { x: 0, y: 0, width: 10, height: 6 };
    assert!(widget.can_mark(area));
    assert_eq!(widget.marks(area), vec![(5, 3)]);
    let area = Area { x: 25, y: 2, width: 11, height: 7 };
    assert_eq!(widget.marks(area), vec![(30, 5)]);
}

#[test]
fn marks_are_the_live_cells_of_the_window() {
    let board = Board::from([
        Point::new(0, 0),
        Point::new(1, 0),
        Point::new(-2, -1),
        Point::new(1, 1),
        Point::new(2, 0),
        Point::new(-3, 0),
        Point::new(0, 2),
        Point::new(0, -2),
    ]);
    let widget = BoardWidget::new(&board);
    // Columns show x from -2 to 1, rows show y from -1 to 1.
    let area = Area { x: 100, y: 200, width: 4, height: 3 };
    assert_eq!(sorted(widget.marks(area)), vec![(100, 200), (102, 201), (103, 201), (103, 202)]);
}

#[test]
fn pan_to_moves_the_window() {
    let board = Board::from([Point::new(0, 0), Point::new(10, 10), Point::new(11, 9)]);
    let area = Area { x: 1, y: 1, width: 4, height: 4 };
    let widget = BoardWidget::new(&board);
    assert_eq!(sorted(widget.marks(area)), vec![(3, 3)]);
    let widget = widget.pan_to(Point::new(10, 10));
    assert_eq!(sorted(widget.marks(area)), vec![(3, 3), (4, 2)]);
    let widget = BoardWidget::new(&board).pan_to(Point::new(100, 100));
    assert!(widget.marks(area).is_empty());
}

#[test]
fn nothing_is_marked_in_an_empty_area() {
    let board = Board::from([Point::new(0, 0)]);
    let widget = BoardWidget::new(&board);
    assert!(widget.marks(Area::default()).is_empty());
    assert!(widget.marks(Area { x: 3, y: 3, width: 0, height: 9 }).is_empty());
}

#[test]
fn can_mark_refuses_what_cannot_be_drawn() {
    let board = Board::default();
    let widget = BoardWidget::new(&board);
    assert!(widget.can_mark(Area { x: 65535, y: 65535, width: 1, height: 1 }));
    assert!(!widget.can_mark(Area { x: 65535, y: 0, width: 2, height: 1 }));
    assert!(!widget.can_mark(Area { x: 0, y: 65000, width: 1, height: 537 }));
    assert!(widget.can_mark(Area { x: 0, y: 65000, width: 1, height: 536 }));
    let area = Area { x: 0, y: 0, width: 10, height: 4 };
    assert!(BoardWidget::new(&board).pan_to(Point::new(i64::MIN + 5, i64::MIN + 2)).can_mark(area));
    assert!(!BoardWidget::new(&board).pan_to(Point::new(i64::MIN + 4, i64::MIN + 2)).can_mark(area));
    assert!(!BoardWidget::new(&board).pan_to(Point::new(i64::MIN + 5, i64::MIN + 1)).can_mark(area));
    assert!(BoardWidget::new(&board).pan_to(Point::new(i64::MAX, i64::MAX)).can_mark(area));
}

#[test]
fn marks_work_at_the_edges() {
    let board = Board::from([Point::new(i64::MIN, i64::MIN), Point::new(i64::MAX, i64::MAX)]);
    let area = Area { x: 65526, y: 65532, width: 10, height: 4 };
    let low = BoardWidget::new(&board).pan_to(Point::new(i64::MIN + 5, i64::MIN + 2));
    assert_eq!(low.marks(area), vec![(65526, 65532)]);
    let high = BoardWidget::new(&board).pan_to(Point::new(i64::MAX - 4, i64::MAX - 1));
    assert_eq!(high.marks(area), vec![(65535, 65535)]);
}
