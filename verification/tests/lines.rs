use softraster::geometry::{Line, Point};

fn pt(x: i32, y: i32) -> Point {
    Point { x, y }
}

#[test]
fn line_through_two_points_contains_both() {
    let p = pt(1, 2);
    let q = pt(7, -3);
    let line = Line::from_points(p, q);
    assert!(line.contains_point(p));
    assert!(line.contains_point(q));
    assert!(line.contains_point(pt(13, -8)));
    assert!(!line.contains_point(pt(0, 0)));
    assert!(!line.contains_point(pt(7, -2)));
}

#[test]
fn vertical_line_contains_its_column() {
    let line = Line::from_points(pt(4, -1), pt(4, 9));
    assert!(line.contains_point(pt(4, 100)));
    assert!(!line.contains_point(pt(5, 0)));
}

#[test]
fn horizontal_line_contains_its_row() {
    let line = Line::horizontal(-6);
    assert!(line.contains_point(pt(1000, -6)));
    assert!(!line.contains_point(pt(0, 6)));
}

#[test]
fn line_equality_ignores_the_order_of_the_points() {
    let p = pt(1, 2);
    let q = pt(7, -3);
    assert!(Line::from_points(p, q) == Line::from_points(q, p));
    let r = pt(5, 2);
    assert!(Line::from_points(p, r) == Line::from_points(r, p));
    let s = pt(1, -20);
    assert!(Line::from_points(p, s) == Line::from_points(s, p));
}

#[test]
fn line_equality_ignores_the_scale_of_the_coefficients() {
    // both lines are y = 2 x; their first coefficients are 4 and 6
    let short = Line::from_points(pt(2, 4), pt(0, 0));
    let long = Line::from_points(pt(3, 6), pt(0, 0));
    assert!(short == long);
    assert!(long == short);
    let far = Line::from_points(pt(-50, -100), pt(25, 50));
    assert!(short == far);
}

#[test]
fn horizontal_lines_are_equal_at_equal_height_only() {
    assert!(Line::from_points(pt(1, 2), pt(5, 2)) == Line::horizontal(2));
    assert!(Line::horizontal(2) == Line::horizontal(2));
    assert!(Line::horizontal(2) != Line::horizontal(3));
    assert!(Line::from_points(pt(1, 2), pt(5, 2)) != Line::from_points(pt(1, 3), pt(5, 3)));
}

#[test]
fn different_lines_are_not_equal() {
    let line = Line::from_points(pt(0, 0), pt(2, 4));
    assert!(line != Line::from_points(pt(0, 1), pt(2, 5)));
    assert!(line != Line::from_points(pt(0, 0), pt(2, 5)));
    assert!(line != Line::horizontal(0));
    assert!(Line::horizontal(0) != line);
    assert!(line != Line::from_points(pt(0, 0), pt(0, 5)));
}

#[test]
fn line_equality_holds_at_the_ends_of_the_coordinate_range() {
    let p = pt(i32::MIN, i32::MIN);
    let q = pt(i32::MAX, i32::MAX);
    assert!(Line::from_points(p, q) == Line::from_points(q, p));
    assert!(Line::from_points(p, q) == Line::from_points(pt(0, 0), pt(1, 1)));
    assert!(Line::from_points(p, q).contains_point(pt(17, 17)));
    let r = pt(i32::MIN, i32::MAX);
    let s = pt(i32::MAX, i32::MIN);
    assert!(Line::from_points(r, s) == Line::from_points(s, r));
    assert!(Line::from_points(r, s).contains_point(pt(0, -1)));
    assert!(Line::from_points(p, q) != Line::from_points(r, s));
}

#[test]
fn intersection_follows_cramers_rule() {
    // x + y = 10 and x - y = 2 meet in (6, 4)
    let falling = Line::from_points(pt(0, 10), pt(10, 0));
    let rising = Line::from_points(pt(2, 0), pt(3, 1));
    assert_eq!(falling.intersect(rising), pt(6, 4));
    assert_eq!(rising.intersect(falling), pt(6, 4));
    assert_eq!(falling.try_intersect(rising), Some(pt(6, 4)));
}

#[test]
fn intersection_rounds_toward_zero() {
    // the line through (1, 2) and (7, -3) is 5 x + 6 y = 17
    let line = Line::from_points(pt(1, 2), pt(7, -3));
    // at height 0: x = 17 / 5
    assert_eq!(Line::horizontal(0).intersect(line), pt(3, 0));
    // at height 4: x = -7 / 5
    assert_eq!(Line::horizontal(4).intersect(line), pt(-1, 4));
    // at height 3: x = -1 / 5
    assert_eq!(Line::horizontal(3).intersect(line), pt(0, 3));
    // in the column 2: y = 7 / 6; in the column 5: y = -8 / 6
    let column = Line::from_points(pt(2, 0), pt(2, 1));
    assert_eq!(column.intersect(line), pt(2, 1));
    let column = Line::from_points(pt(5, 0), pt(5, 1));
    assert_eq!(column.intersect(line), pt(5, -1));
}

#[test]
fn parallel_lines_do_not_intersect() {
    let line = Line::from_points(pt(0, 0), pt(2, 4));
    let shifted = Line::from_points(pt(0, 1), pt(2, 5));
    assert_eq!(line.try_intersect(shifted), None);
    assert_eq!(line.try_intersect(line), None);
    assert_eq!(Line::horizontal(1).try_intersect(Line::horizontal(2)), None);
}

#[test]
fn intersection_beyond_the_coordinate_range_is_refused() {
    // slopes 1 and 1 - 1 / 2^30 through points two apart: the lines meet at about x = 2^31
    let steep = Line::from_points(pt(0, 0), pt(1 << 30, 1 << 30));
    let flat = Line::from_points(pt(0, 2), pt(1 << 30, (1 << 30) + 1));
    assert_eq!(steep.try_intersect(flat), None);
    let nearer = Line::from_points(pt(0, 1), pt(1 << 30, 1 << 30));
    assert_eq!(steep.try_intersect(nearer), Some(pt(1 << 30, 1 << 30)));
}
