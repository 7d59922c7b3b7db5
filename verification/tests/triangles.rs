use softraster::geometry::{
    BasicPoint, BasicPoint3d, BasicVector, BasicVector3d, GluedTriangle, HorizontalSegment,
    LiesOn, Point, Segment, Triangle, Triangular,
};
use softraster::linalg::Matrix2d;

fn pt(x: i32, y: i32) -> Point {
    Point { x, y }
}

#[test]
fn triangle_with_two_equal_vertices_is_refused() {
    assert!(Triangle::try_new(pt(1, 1), pt(1, 1), pt(5, 9)).is_none());
    assert!(Triangle::try_new(pt(1, 1), pt(5, 9), pt(5, 9)).is_none());
    assert!(Triangle::try_new(pt(1, 1), pt(5, 9), pt(1, 1)).is_none());
    assert!(Triangle::try_new(pt(3, 3), pt(3, 3), pt(3, 3)).is_none());
}

#[test]
fn triangle_with_a_vertex_on_the_opposite_line_is_refused() {
    assert!(Triangle::try_new(pt(0, 0), pt(2, 4), pt(5, 10)).is_none());
    assert!(Triangle::try_new(pt(5, 10), pt(0, 0), pt(2, 4)).is_none());
    assert!(Triangle::try_new(pt(0, 7), pt(3, 7), pt(-9, 7)).is_none());
    assert!(Triangle::try_new(pt(4, 0), pt(4, 1), pt(4, -8)).is_none());
}

#[test]
fn triangle_with_three_corners_is_built() {
    let triangle = Triangle::try_new(pt(0, 0), pt(10, 0), pt(5, 10)).unwrap();
    assert_eq!(triangle.a, pt(0, 0));
    assert_eq!(triangle.b, pt(10, 0));
    assert_eq!(triangle.c, pt(5, 10));
    assert_eq!(Triangle::new(pt(0, 0), pt(10, 0), pt(5, 10)), triangle);
    assert!(Triangle::try_new(pt(0, 0), pt(2, 4), pt(5, 11)).is_some());
    assert!(Triangle::try_new(pt(i32::MIN, i32::MIN), pt(i32::MAX, i32::MAX), pt(0, 1)).is_some());
    assert!(Triangle::try_new(pt(i32::MIN, i32::MIN), pt(i32::MAX, i32::MAX), pt(1, 1)).is_none());
}

#[test]
fn point_lies_on_the_line_through_two_others() {
    assert!(pt(3, 3).lies_on(&pt(0, 0), &pt(1, 1)));
    assert!(!pt(3, 4).lies_on(&pt(0, 0), &pt(1, 1)));
    assert!(pt(0, 0).lies_on(&pt(0, 0), &pt(1, 1)));
}

#[test]
fn corners_are_sorted_along_each_axis() {
    let triangle = Triangle::new(pt(5, 10), pt(0, 0), pt(10, 0));
    assert_eq!(triangle.points(), (pt(5, 10), pt(0, 0), pt(10, 0)));
    assert_eq!(triangle.xsort(), (pt(0, 0), pt(5, 10), pt(10, 0)));
    assert_eq!(triangle.ysort(), (pt(0, 0), pt(10, 0), pt(5, 10)));
    let triangle = Triangle::new(pt(3, 9), pt(2, 8), pt(1, 0));
    assert_eq!(triangle.xsort(), (pt(1, 0), pt(2, 8), pt(3, 9)));
    assert_eq!(triangle.ysort(), (pt(1, 0), pt(2, 8), pt(3, 9)));
    assert_eq!(triangle.sort_points(|p: Point| -p.x), (pt(3, 9), pt(2, 8), pt(1, 0)));
}

#[test]
fn corners_of_equal_key_keep_their_order() {
    let triangle = Triangle::new(pt(10, 0), pt(0, 0), pt(5, 10));
    assert_eq!(triangle.ysort(), (pt(10, 0), pt(0, 0), pt(5, 10)));
    let triangle = Triangle::new(pt(5, 10), pt(10, 0), pt(0, 0));
    assert_eq!(triangle.ysort(), (pt(10, 0), pt(0, 0), pt(5, 10)));
    let triangle = Triangle::new(pt(7, 7), pt(7, 1), pt(2, 3));
    assert_eq!(triangle.xsort(), (pt(2, 3), pt(7, 7), pt(7, 1)));
}

#[test]
fn horizontal_segment_orders_its_ends() {
    let segment = HorizontalSegment::from_points(pt(9, 4), pt(-2, 4));
    assert_eq!(segment.left(), pt(-2, 4));
    assert_eq!(segment.right(), pt(9, 4));
    assert_eq!(segment.y(), 4);
    assert!(segment.as_line().contains_point(pt(100, 4)));
    assert!(!segment.as_line().contains_point(pt(0, 5)));
    assert_eq!(segment, HorizontalSegment::from_points(pt(-2, 4), pt(9, 4)));
    let point = HorizontalSegment::from_points(pt(3, 3), pt(3, 3));
    assert_eq!(point.left(), point.right());
}

#[test]
fn horizontal_segment_spans_the_whole_coordinate_range() {
    let segment = HorizontalSegment::from_points(pt(i32::MAX, 0), pt(i32::MIN, 0));
    assert_eq!(segment.left(), pt(i32::MIN, 0));
    assert_eq!(segment.right(), pt(i32::MAX, 0));
}

#[test]
fn glued_triangle_needs_a_free_point_off_the_segment_line() {
    let segment = HorizontalSegment::from_points(pt(0, 2), pt(4, 2));
    assert!(GluedTriangle::try_new(segment, pt(2, 2)).is_none());
    assert!(GluedTriangle::try_new(segment, pt(90, 2)).is_none());
    let glued = GluedTriangle::try_new(segment, pt(2, 5)).unwrap();
    assert_eq!(glued.horizontal_segment, segment);
    assert_eq!(glued.free_point, pt(2, 5));
    assert_eq!(GluedTriangle::new(segment, pt(2, 5)), glued);
    assert_eq!(glued.points(), (pt(2, 5), pt(0, 2), pt(4, 2)));
    assert_eq!(glued.ysort(), (pt(0, 2), pt(4, 2), pt(2, 5)));
    assert_eq!(glued.xsort(), (pt(0, 2), pt(2, 5), pt(4, 2)));
}

#[test]
fn segment_needs_two_different_ends() {
    assert!(Segment::try_from_points(pt(1, 2), pt(1, 2)).is_none());
    let segment = Segment::try_from_points(pt(1, 2), pt(1, 3)).unwrap();
    assert_eq!(segment.a(), pt(1, 2));
    assert_eq!(segment.b(), pt(1, 3));
    assert_eq!(Segment::from_points(pt(1, 2), pt(1, 3)), segment);
    assert!(Segment::try_from_points(0.5, 0.5).is_none());
    assert_eq!(Segment::from_points(0.5, 0.25).b(), 0.25);
}

#[test]
fn points_and_vectors_add_up() {
    let p = pt(3, 4);
    let v = BasicVector { x: 10, y: -20 };
    assert_eq!(p + v, pt(13, -16));
    assert_eq!(p - v, pt(-7, 24));
    assert_eq!(pt(13, -16) - p, v);
    assert_eq!(v + v, BasicVector { x: 20, y: -40 });
    assert_eq!(v - BasicVector { x: 1, y: 1 }, BasicVector { x: 9, y: -21 });
    assert_eq!(-v, BasicVector { x: -10, y: 20 });
    assert_eq!(v.perp(), BasicVector { x: 20, y: 10 });
    assert_eq!(BasicVector { x: 1.5, y: 2.0 }.perp(), BasicVector { x: -2.0, y: 1.5 });
    assert_eq!(Point::from((3, 4)), p);
    assert_eq!(BasicVector::from((10, -20)), v);
    assert_eq!(BasicPoint { x: 0.5, y: 1.0 } + BasicVector { x: 0.25, y: 1.0 }, BasicPoint { x: 0.75, y: 2.0 });
}

#[test]
fn points_and_vectors_of_space_add_up() {
    let p = BasicPoint3d { x: 1, y: 2, z: 3 };
    let v = BasicVector3d { x: 10, y: 20, z: 30 };
    assert_eq!(p + v, BasicPoint3d { x: 11, y: 22, z: 33 });
    assert_eq!(p - v, BasicPoint3d { x: -9, y: -18, z: -27 });
    assert_eq!(BasicPoint3d { x: 11, y: 22, z: 33 } - p, v);
    assert_eq!(v + v, BasicVector3d { x: 20, y: 40, z: 60 });
    assert_eq!(v - v, BasicVector3d { x: 0, y: 0, z: 0 });
    assert_eq!(v * 3, BasicVector3d { x: 30, y: 60, z: 90 });
    assert_eq!(-v, BasicVector3d { x: -10, y: -20, z: -30 });
    assert_eq!(p.as_vector(), BasicVector3d { x: 1, y: 2, z: 3 });
    assert_eq!(v.as_point(), BasicPoint3d { x: 10, y: 20, z: 30 });
    assert_eq!(BasicPoint3d::from((1, 2, 3)), p);
    assert_eq!(BasicVector3d::from((10, 20, 30)), v);
    assert_eq!(BasicVector3d { x: 1.0, y: 2.0, z: 4.0 } * 0.5, BasicVector3d { x: 0.5, y: 1.0, z: 2.0 });
}

#[test]
fn matrix_is_built_from_rows_or_columns() {
    let by_rows = Matrix2d::from_rows((1, 2), (3, 4));
    assert_eq!((by_rows.x00, by_rows.x01, by_rows.x10, by_rows.x11), (1, 2, 3, 4));
    let by_columns = Matrix2d::from_columns((1, 2), (3, 4));
    assert_eq!((by_columns.x00, by_columns.x01, by_columns.x10, by_columns.x11), (1, 3, 2, 4));
    assert_eq!(Matrix2d::from_rows((1, 3), (2, 4)), by_columns);
}

#[test]
fn determinant_is_the_difference_of_the_diagonal_products() {
    assert_eq!(Matrix2d::<i128>::from_rows((1, 2), (3, 4)).det(), -2);
    assert_eq!(Matrix2d::<i128>::from_rows((2, 0), (0, 3)).det(), 6);
    assert_eq!(Matrix2d::<i128>::from_columns((5, 10), (1, 2)).det(), 0);
    let big: i128 = 1 << 62;
    assert_eq!(Matrix2d::<i128>::from_rows((big, -big), (big, big)).det(), 1 << 125);
}
