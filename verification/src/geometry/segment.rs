//! Segments: the horizontal ones that the rasterizer fills from, and the general
//! pair of distinct end points.

use crate::geometry::line::{horizontal_at, Line};
use crate::geometry::point::Point;
use vstd::prelude::*;
use vstd::std_specs::cmp::PartialEqSpec;

verus! {

/// What a horizontal segment is: its left end and its width.
pub struct Span {
    pub left: Point,
    pub width: nat,
}

impl Span {
    /// The height at which the segment lies.
    pub open spec fn y(self) -> int {
        self.left.y as int
    }

    /// The x coordinate of the left end.
    pub open spec fn left_x(self) -> int {
        self.left.x as int
    }

    /// The x coordinate of the right end.
    pub open spec fn right_x(self) -> int {
        self.left.x + self.width
    }

    /// The right end.
    pub open spec fn right(self) -> Point {
        Point { x: self.right_x() as i32, y: self.left.y }
    }
}

/// The horizontal segment between two points of equal height, given in either
/// order.
pub open spec fn span_between(p: Point, q: Point) -> Span {
    if p.x > q.x {
        Span { left: q, width: (p.x - q.x) as nat }
    } else {
        Span { left: p, width: (q.x - p.x) as nat }
    }
}

/// A horizontal segment between two points of the raster plane.
#[derive(Debug, Clone, Copy, Eq, PartialEq)]
pub struct HorizontalSegment {
    left: Point,
    width: u32,
}

impl View for HorizontalSegment {
    type V = Span;

    closed spec fn view(&self) -> Span {
        Span { left: self.left, width: self.width as nat }
    }
}

impl HorizontalSegment {
    /// The right end is a point of the raster plane.
    #[verifier::type_invariant]
    spec fn right_end_in_range(self) -> bool {
        self.left.x + self.width <= i32::MAX
    }

    /// The segment between two points of equal height, given in either order.
    pub fn from_points(left: Point, right: Point) -> (segment: HorizontalSegment)
        requires
            left.y == right.y,
        ensures
            segment@ == span_between(left, right),
    {
        let (left, right) = if left.x > right.x {
            (right, left)
        } else {
            (left, right)
        };
        HorizontalSegment { left, width: (right.x as i64 - left.x as i64) as u32 }
    }

    /// The left end.
    pub fn left(self) -> (p: Point)
        ensures
            p == self@.left,
    {
        self.left
    }

    /// The right end.
    pub fn right(self) -> (p: Point)
        ensures
            p == self@.right(),
            p.x == self@.right_x(),
    {
        proof {
            use_type_invariant(&self);
        }
        Point { x: (self.left.x as i64 + self.width as i64) as i32, y: self.left.y }
    }

    /// The height at which the segment lies.
    pub fn y(self) -> (y: i32)
        ensures
            y == self@.y(),
    {
        self.left.y
    }

    /// The line that the segment is part of.
    pub fn as_line(self) -> (line: Line)
        ensures
            line@ == horizontal_at(self@.y()),
    {
        Line::horizontal(self.y())
    }
}

/// A pair of end points that do not compare equal.
#[derive(Debug, Clone, Copy, Eq, PartialEq)]
pub struct Segment<P> {
    a: P,
    b: P,
}

impl<P: Copy + PartialEq> Segment<P> {
    /// The first end point.
    pub closed spec fn first(self) -> P {
        self.a
    }

    /// The second end point.
    pub closed spec fn second(self) -> P {
        self.b
    }

    /// The segment between two points, or `None` where they compare equal.
    pub fn try_from_points(a: P, b: P) -> (r: Option<Self>)
        ensures
            P::obeys_eq_spec() ==> (r.is_none() <==> a.eq_spec(&b)),
            r matches Some(segment) ==> segment.first() == a && segment.second() == b,
    {
        if a == b {
            None
        } else {
            Some(Segment { a, b })
        }
    }

    /// The segment between two points that do not compare equal.
    pub fn from_points(a: P, b: P) -> (segment: Self)
        requires
            P::obeys_eq_spec(),
            !a.eq_spec(&b),
        ensures
            segment.first() == a,
            segment.second() == b,
    {
        Self::try_from_points(a, b).expect("Ends of segment cannot coincide")
    }

    /// The first end point.
    pub fn a(self) -> (p: P)
        ensures
            p == self.first(),
    {
        self.a
    }

    /// The second end point.
    pub fn b(self) -> (p: P)
        ensures
            p == self.second(),
    {
        self.b
    }
}

} // verus!
