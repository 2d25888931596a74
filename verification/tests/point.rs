use game_of_life::point::Point;

#[test]
fn new_sets_both_coordinates() {
    let p = Point::new(3, -4);
    assert_eq!(p.x, 3);
    assert_eq!(p.y, -4);
    assert_eq!(p, Point { x: 3, y: -4 });
}

#[test]
fn x_and_y_leave_the_other_axis_at_zero() {
    assert_eq!(Point::x(7), Point::new(7, 0));
    assert_eq!(Point::y(-7), Point::new(0, -7));
    assert_eq!(Point::default(), Point::new(0, 0));
}

#[test]
fn from_a_pair() {
    let p: Point = (5i64, -6i64).into();
    assert_eq!(p, Point::new(5, -6));
    assert_eq!(Point::from((i64::MIN, i64::MAX)), Point::new(i64::MIN, i64::MAX));
}

#[test]
fn add_and_sub_work_by_component() {
    let a = Point::new(1, 2);
    let b = Point::new(10, -20);
    assert_eq!(a + b, Point::new(11, -18));
    assert_eq!(a - b, Point::new(-9, 22));
    assert_eq!(b - b, Point::default());
    assert_eq!(a + Point::default(), a);
    assert_eq!(Point::new(i64::MAX - 1, i64::MIN + 1) + Point::new(1, -1), Point::new(i64::MAX, i64::MIN));
}

#[test]
fn add_assign_and_sub_assign_accumulate() {
    let mut p = Point::new(1, 2);
    p += Point::new(3, 4);
    assert_eq!(p, Point::new(4, 6));
    p -= Point::new(10, 1);
    assert_eq!(p, Point::new(-6, 5));
    p += Point::new(6, -5);
    assert_eq!(p, Point::default());
}

#[test]
fn dx_and_dy_move_one_axis() {
    let mut p = Point::new(1, 2);
    p.dx(5);
    assert_eq!(p, Point::new(6, 2));
    p.dy(-5);
    assert_eq!(p, Point::new(6, -3));
    p.dx(-6);
    p.dy(3);
    assert_eq!(p, Point::default());
}

#[test]
fn points_are_copied_and_compared_by_value() {
    let a = Point::new(-1, 1);
    let b = a;
    assert_eq!(a, b);
    assert_ne!(a, Point::new(1, -1));
    assert_eq!(format!("{:?}", a), "Point { x: -1, y: 1 }");
}
