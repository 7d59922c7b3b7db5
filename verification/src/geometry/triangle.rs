//! Triangles of the raster plane, and the order of their vertices along an axis.

use crate::geometry::line::{lemma_through_collinear, Line};
use crate::geometry::point::{collinear, cross, lemma_collinear_symmetric, Point};
use crate::geometry::segment::HorizontalSegment;
use vstd::prelude::*;

verus! {

/// A point that can tell whether it lies on the line through two others.
pub trait LiesOn: Sized {
    /// Whether `self` lies on the line through `a` and `b`: for an
    /// implementation to state.
    open spec fn on_line(&self, a: &Self, b: &Self) -> bool {
        arbitrary()
    }

    /// Whether `self` lies on the line through the distinct points `a` and `b`.
    fn lies_on(&self, a: &Self, b: &Self) -> (r: bool)
        requires
            a != b,
        ensures
            r == self.on_line(a, b),
    ;
}

impl LiesOn for Point {
    open spec fn on_line(&self, a: &Point, b: &Point) -> bool {
        collinear(*a, *b, *self)
    }

    fn lies_on(&self, a: &Point, b: &Point) -> (r: bool) {
        proof {
            lemma_through_collinear(*a, *b, *self);
        }
        Line::from_points(*a, *b).contains_point(*self)
    }
}

/// Three vertices; a valid triangle has them distinct and not on one line.
#[derive(Debug, Clone, Copy, PartialEq, Eq)]
pub struct BasicTriangle<P> {
    pub a: P,
    pub b: P,
    pub c: P,
}

/// A triangle of the raster plane.
pub type Triangle = BasicTriangle<Point>;

/// Whether three points are the vertices of a triangle: no two of them
/// coincide and none lies on the line through the other two.
pub open spec fn spans_triangle(a: Point, b: Point, c: Point) -> bool {
    &&& a != b
    &&& b != c
    &&& a != c
    &&& !collinear(a, b, c)
}

impl BasicTriangle<Point> {
    /// Whether the vertices are distinct and not on one line.
    pub open spec fn valid(self) -> bool {
        spans_triangle(self.a, self.b, self.c)
    }

    /// The triangle with the given vertices.
    pub fn new(a: Point, b: Point, c: Point) -> (triangle: Triangle)
        requires
            spans_triangle(a, b, c),
        ensures
            triangle.valid(),
            triangle.a == a,
            triangle.b == b,
            triangle.c == c,
    {
        BasicTriangle::try_new(a, b, c).expect("The triangle is invalid")
    }

    /// The triangle with the given vertices, or `None` where two of them
    /// coincide or one lies on the line through the other two.
    pub fn try_new(a: Point, b: Point, c: Point) -> (r: Option<Triangle>)
        ensures
            r.is_some() <==> spans_triangle(a, b, c),
            r matches Some(triangle) ==> triangle.a == a && triangle.b == b && triangle.c == c,
    {
        proof {
            lemma_collinear_symmetric(a, b, c);
        }
        if a == b || b == c || a == c {
            None
        } else if a.lies_on(&b, &c) || b.lies_on(&a, &c) || c.lies_on(&a, &b) {
            None
        } else {
            Some(BasicTriangle { a, b, c })
        }
    }
}

/// Whether a point lies in the triangle, its edges included.
pub open spec fn inside(triangle: Triangle, point: Point) -> bool {
    let (a, b, c) = (triangle.a, triangle.b, triangle.c);
    if cross(a, b, c) > 0 {
        cross(a, b, point) >= 0 && cross(b, c, point) >= 0 && cross(c, a, point) >= 0
    } else {
        cross(a, b, point) <= 0 && cross(b, c, point) <= 0 && cross(c, a, point) <= 0
    }
}

/// A horizontal segment and a free point off the segment's line: the unit that
/// the rasterizer fills row by row.
#[derive(Debug, Clone, Copy, Eq, PartialEq)]
pub struct GluedTriangle {
    pub horizontal_segment: HorizontalSegment,
    pub free_point: Point,
}

impl GluedTriangle {
    /// Whether the free point lies off the line of the horizontal segment.
    pub open spec fn valid(self) -> bool {
        self.free_point.y != self.horizontal_segment@.y()
    }

    /// The glued triangle on the given segment with the given free point.
    pub fn new(horizontal_segment: HorizontalSegment, free_point: Point) -> (triangle:
        GluedTriangle)
        requires
            free_point.y != horizontal_segment@.y(),
        ensures
            triangle.valid(),
            triangle.horizontal_segment == horizontal_segment,
            triangle.free_point == free_point,
    {
        GluedTriangle::try_new(horizontal_segment, free_point).expect(
            "GluedTriangle's free point cannot lie on the same line as its horizontal segment",
        )
    }

    /// The glued triangle on the given segment with the given free point, or
    /// `None` where the free point lies on the segment's line.
    pub fn try_new(horizontal_segment: HorizontalSegment, free_point: Point) -> (r: Option<
        GluedTriangle,
    >)
        ensures
            r.is_some() <==> free_point.y != horizontal_segment@.y(),
            r matches Some(triangle) ==> triangle.horizontal_segment == horizontal_segment
                && triangle.free_point == free_point,
    {
        if horizontal_segment.as_line().contains_point(free_point) {
            None
        } else {
            Some(GluedTriangle { horizontal_segment, free_point })
        }
    }
}

/// Three points brought into ascending order of a key by three exchanges of
/// neighbours; points of equal key keep their order.
pub open spec fn sort3(points: (Point, Point, Point), key: spec_fn(Point) -> int) -> (
    Point,
    Point,
    Point,
) {
    let (a, b, c) = points;
    let (a, b) = if key(a) > key(b) {
        (b, a)
    } else {
        (a, b)
    };
    let (b, c) = if key(b) > key(c) {
        (c, b)
    } else {
        (b, c)
    };
    let (a, b) = if key(a) > key(b) {
        (b, a)
    } else {
        (a, b)
    };
    (a, b, c)
}

/// Whether `sorted` holds the same three points as `points`, in some order.
pub open spec fn rearranges(points: (Point, Point, Point), sorted: (Point, Point, Point)) -> bool {
    let (a, b, c) = points;
    ||| sorted == (a, b, c)
    ||| sorted == (a, c, b)
    ||| sorted == (b, a, c)
    ||| sorted == (b, c, a)
    ||| sorted == (c, a, b)
    ||| sorted == (c, b, a)
}

/// Sorting rearranges the points so that their keys ascend.
pub proof fn lemma_sort3_sorted(points: (Point, Point, Point), key: spec_fn(Point) -> int)
    ensures
        rearranges(points, sort3(points, key)),
        key(sort3(points, key).0) <= key(sort3(points, key).1) <= key(sort3(points, key).2),
{
}

/// The key that orders points from left to right.
pub open spec fn by_x() -> spec_fn(Point) -> int {
    |p: Point| p.x as int
}

/// The key that orders points by height.
pub open spec fn by_y() -> spec_fn(Point) -> int {
    |p: Point| p.y as int
}

/// Whether every value that the executable key can return for a point is the
/// one that `model` names.
pub open spec fn computes<F: Fn(Point) -> i32>(key: F, model: spec_fn(Point) -> int) -> bool {
    forall|p: Point, k: i32| call_ensures(key, (p,), k) ==> k as int == model(p)
}

/// A figure with three corner points.
pub trait Triangular {
    /// The three corner points: for an implementation to state.
    open spec fn corners(&self) -> (Point, Point, Point) {
        arbitrary()
    }

    /// The three corner points.
    fn points(&self) -> (r: (Point, Point, Point))
        ensures
            r == self.corners(),
    ;

    /// The corner points in ascending order of a key that is a function of the
    /// point.
    fn sort_points<F: Fn(Point) -> i32>(&self, key: F) -> (r: (Point, Point, Point))
        requires
            forall|p: Point| call_requires(key, (p,)),
        ensures
            forall|model: spec_fn(Point) -> int| #[trigger]
                computes(key, model) ==> r == sort3(self.corners(), model),
    {
        let (mut a, mut b, mut c) = self.points();
        if key(a) > key(b) {
            let t = a;
            a = b;
            b = t;
        }
        if key(b) > key(c) {
            let t = b;
            b = c;
            c = t;
        }
        if key(a) > key(b) {
            let t = a;
            a = b;
            b = t;
        }
        (a, b, c)
    }

    /// The corner points from left to right.
    fn xsort(&self) -> (r: (Point, Point, Point))
        ensures
            r == sort3(self.corners(), by_x()),
    {
        let key = |p: Point| -> (k: i32)
            ensures
                k == p.x,
            { p.x };
        assert(computes(key, by_x()));
        self.sort_points(key)
    }

    /// The corner points by ascending height.
    fn ysort(&self) -> (r: (Point, Point, Point))
        ensures
            r == sort3(self.corners(), by_y()),
    {
        let key = |p: Point| -> (k: i32)
            ensures
                k == p.y,
            { p.y };
        assert(computes(key, by_y()));
        self.sort_points(key)
    }
}

impl Triangular for Triangle {
    open spec fn corners(&self) -> (Point, Point, Point) {
        (self.a, self.b, self.c)
    }

    fn points(&self) -> (r: (Point, Point, Point)) {
        (self.a, self.b, self.c)
    }
}

impl Triangular for GluedTriangle {
    open spec fn corners(&self) -> (Point, Point, Point) {
        (self.free_point, self.horizontal_segment@.left, self.horizontal_segment@.right())
    }

    fn points(&self) -> (r: (Point, Point, Point)) {
        (self.free_point, self.horizontal_segment.left(), self.horizontal_segment.right())
    }
}

} // verus!
