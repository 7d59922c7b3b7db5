//! Points and displacement vectors with two coordinates.

use std::ops::{Add, Neg, Sub};
use vstd::prelude::*;
use vstd::std_specs::convert::FromSpecImpl;
use vstd::std_specs::ops::{AddSpec, AddSpecImpl, NegSpec, NegSpecImpl, SubSpec, SubSpecImpl};

verus! {

/// A location given by two coordinates.
#[derive(Debug, Copy, Clone, PartialEq, Eq, Structural)]
pub struct BasicPoint<T> {
    pub x: T,
    pub y: T,
}

/// A pixel-space location.
pub type Point = BasicPoint<i32>;

/// A displacement given by two coordinates.
#[derive(Debug, Copy, Clone, PartialEq, Eq, Structural)]
pub struct BasicVector<T> {
    pub x: T,
    pub y: T,
}

/// Twice the signed area of the triangle `o`, `p`, `q`: positive where the turn
/// from `p` to `q` about `o` goes from the x axis toward the y axis.
pub open spec fn cross(o: Point, p: Point, q: Point) -> int {
    (p.x - o.x) * (q.y - o.y) - (p.y - o.y) * (q.x - o.x)
}

/// Whether three points lie on one line, or two of them coincide.
pub open spec fn collinear(a: Point, b: Point, c: Point) -> bool {
    cross(a, b, c) == 0
}

/// The turn of three points keeps its value where the points change places
/// in a circle, and changes its sign where two of them change places.
pub proof fn lemma_cross_symmetric(a: Point, b: Point, c: Point)
    ensures
        cross(b, c, a) == cross(a, b, c),
        cross(c, a, b) == cross(a, b, c),
        cross(b, a, c) == -cross(a, b, c),
        cross(a, c, b) == -cross(a, b, c),
        cross(c, b, a) == -cross(a, b, c),
{
    assert(cross(b, a, c) == -cross(a, b, c)) by (nonlinear_arith)
        requires
            cross(a, b, c) == (b.x - a.x) * (c.y - a.y) - (b.y - a.y) * (c.x - a.x),
            cross(b, a, c) == (a.x - b.x) * (c.y - b.y) - (a.y - b.y) * (c.x - b.x),
    ;
    assert(cross(a, c, b) == -cross(a, b, c)) by (nonlinear_arith)
        requires
            cross(a, b, c) == (b.x - a.x) * (c.y - a.y) - (b.y - a.y) * (c.x - a.x),
            cross(a, c, b) == (c.x - a.x) * (b.y - a.y) - (c.y - a.y) * (b.x - a.x),
    ;
    assert(cross(b, c, a) == cross(a, b, c)) by (nonlinear_arith)
        requires
            cross(a, b, c) == (b.x - a.x) * (c.y - a.y) - (b.y - a.y) * (c.x - a.x),
            cross(b, c, a) == (c.x - b.x) * (a.y - b.y) - (c.y - b.y) * (a.x - b.x),
    ;
    assert(cross(c, a, b) == cross(a, b, c)) by (nonlinear_arith)
        requires
            cross(a, b, c) == (b.x - a.x) * (c.y - a.y) - (b.y - a.y) * (c.x - a.x),
            cross(c, a, b) == (a.x - c.x) * (b.y - c.y) - (a.y - c.y) * (b.x - c.x),
    ;
    assert(cross(c, b, a) == -cross(a, b, c)) by (nonlinear_arith)
        requires
            cross(a, b, c) == (b.x - a.x) * (c.y - a.y) - (b.y - a.y) * (c.x - a.x),
            cross(c, b, a) == (b.x - c.x) * (a.y - c.y) - (b.y - c.y) * (a.x - c.x),
    ;
}

/// The turn of three points, product by product.
proof fn lemma_cross_expanded(o: Point, p: Point, q: Point)
    ensures
        cross(o, p, q) == p.x * q.y - p.x * o.y - o.x * q.y - p.y * q.x + p.y * o.x + o.y * q.x,
{
    assert((p.x - o.x) * (q.y - o.y) == p.x * q.y - p.x * o.y - o.x * q.y + o.x * o.y)
        by (nonlinear_arith);
    assert((p.y - o.y) * (q.x - o.x) == p.y * q.x - p.y * o.x - o.y * q.x + o.y * o.x)
        by (nonlinear_arith);
    assert(o.x * o.y == o.y * o.x) by (nonlinear_arith);
}

/// The turns of a point about the three edges of a triangle add up to the
/// turn of the triangle.
pub proof fn lemma_cross_sum(a: Point, b: Point, c: Point, p: Point)
    ensures
        cross(a, b, p) + cross(b, c, p) + cross(c, a, p) == cross(a, b, c),
{
    lemma_cross_expanded(a, b, p);
    lemma_cross_expanded(b, c, p);
    lemma_cross_expanded(c, a, p);
    lemma_cross_expanded(a, b, c);
    assert(b.x * p.y == p.y * b.x && a.x * p.y == p.y * a.x && c.x * p.y == p.y * c.x)
        by (nonlinear_arith);
    assert(b.y * p.x == p.x * b.y && a.y * p.x == p.x * a.y && c.y * p.x == p.x * c.y)
        by (nonlinear_arith);
    assert(b.x * a.y == a.y * b.x && c.x * b.y == b.y * c.x && a.x * c.y == c.y * a.x)
        by (nonlinear_arith);
    assert(b.y * a.x == a.x * b.y && c.y * b.x == b.x * c.y && a.y * c.x == c.x * a.y)
        by (nonlinear_arith);
}

/// Collinearity does not depend on the order of the points.
pub proof fn lemma_collinear_symmetric(a: Point, b: Point, c: Point)
    ensures
        collinear(a, b, c) == collinear(b, a, c),
        collinear(a, b, c) == collinear(a, c, b),
        collinear(a, b, c) == collinear(b, c, a),
        collinear(a, b, c) == collinear(c, a, b),
        collinear(a, b, c) == collinear(c, b, a),
{
    lemma_cross_symmetric(a, b, c);
}

impl<T: Neg<Output = T>> BasicVector<T> {
    /// The vector turned by a quarter circle, from the x axis toward the y axis.
    pub fn perp(self) -> (r: BasicVector<T>)
        requires
            self.y.neg_req(),
        ensures
            T::obeys_neg_spec() ==> r.x == self.y.neg_spec(),
            r.y == self.x,
    {
        BasicVector { x: self.y.neg(), y: self.x }
    }
}

impl<O, B, A: Add<B, Output = O>> Add<BasicVector<B>> for BasicPoint<A> {
    type Output = BasicPoint<O>;

    /// The point moved by the displacement, coordinate by coordinate.
    fn add(self, other: BasicVector<B>) -> (r: BasicPoint<O>) {
        BasicPoint { x: self.x + other.x, y: self.y + other.y }
    }
}

impl<O, B, A: Add<B, Output = O>> AddSpecImpl<BasicVector<B>> for BasicPoint<A> {
    open spec fn obeys_add_spec() -> bool {
        A::obeys_add_spec()
    }

    open spec fn add_req(self, other: BasicVector<B>) -> bool {
        self.x.add_req(other.x) && self.y.add_req(other.y)
    }

    open spec fn add_spec(self, other: BasicVector<B>) -> BasicPoint<O> {
        BasicPoint { x: self.x.add_spec(other.x), y: self.y.add_spec(other.y) }
    }
}

impl<O, B, A: Sub<B, Output = O>> Sub<BasicPoint<B>> for BasicPoint<A> {
    type Output = BasicVector<O>;

    /// The displacement that leads from `other` to the point, coordinate by coordinate.
    fn sub(self, other: BasicPoint<B>) -> (r: BasicVector<O>) {
        BasicVector { x: self.x - other.x, y: self.y - other.y }
    }
}

impl<O, B, A: Sub<B, Output = O>> SubSpecImpl<BasicPoint<B>> for BasicPoint<A> {
    open spec fn obeys_sub_spec() -> bool {
        A::obeys_sub_spec()
    }

    open spec fn sub_req(self, other: BasicPoint<B>) -> bool {
        self.x.sub_req(other.x) && self.y.sub_req(other.y)
    }

    open spec fn sub_spec(self, other: BasicPoint<B>) -> BasicVector<O> {
        BasicVector { x: self.x.sub_spec(other.x), y: self.y.sub_spec(other.y) }
    }
}

impl<O, B, A: Sub<B, Output = O>> Sub<BasicVector<B>> for BasicPoint<A> {
    type Output = BasicPoint<O>;

    /// The point moved against the displacement, coordinate by coordinate.
    fn sub(self, other: BasicVector<B>) -> (r: BasicPoint<O>) {
        BasicPoint { x: self.x - other.x, y: self.y - other.y }
    }
}

impl<O, B, A: Sub<B, Output = O>> SubSpecImpl<BasicVector<B>> for BasicPoint<A> {
    open spec fn obeys_sub_spec() -> bool {
        A::obeys_sub_spec()
    }

    open spec fn sub_req(self, other: BasicVector<B>) -> bool {
        self.x.sub_req(other.x) && self.y.sub_req(other.y)
    }

    open spec fn sub_spec(self, other: BasicVector<B>) -> BasicPoint<O> {
        BasicPoint { x: self.x.sub_spec(other.x), y: self.y.sub_spec(other.y) }
    }
}

impl<O, B, A: Add<B, Output = O>> Add<BasicVector<B>> for BasicVector<A> {
    type Output = BasicVector<O>;

    /// The sum of the displacements, coordinate by coordinate.
    fn add(self, other: BasicVector<B>) -> (r: BasicVector<O>) {
        BasicVector { x: self.x + other.x, y: self.y + other.y }
    }
}

impl<O, B, A: Add<B, Output = O>> AddSpecImpl<BasicVector<B>> for BasicVector<A> {
    open spec fn obeys_add_spec() -> bool {
        A::obeys_add_spec()
    }

    open spec fn add_req(self, other: BasicVector<B>) -> bool {
        self.x.add_req(other.x) && self.y.add_req(other.y)
    }

    open spec fn add_spec(self, other: BasicVector<B>) -> BasicVector<O> {
        BasicVector { x: self.x.add_spec(other.x), y: self.y.add_spec(other.y) }
    }
}

impl<O, B, A: Sub<B, Output = O>> Sub<BasicVector<B>> for BasicVector<A> {
    type Output = BasicVector<O>;

    /// The difference of the displacements, coordinate by coordinate.
    fn sub(self, other: BasicVector<B>) -> (r: BasicVector<O>) {
        BasicVector { x: self.x - other.x, y: self.y - other.y }
    }
}

impl<O, B, A: Sub<B, Output = O>> SubSpecImpl<BasicVector<B>> for BasicVector<A> {
    open spec fn obeys_sub_spec() -> bool {
        A::obeys_sub_spec()
    }

    open spec fn sub_req(self, other: BasicVector<B>) -> bool {
        self.x.sub_req(other.x) && self.y.sub_req(other.y)
    }

    open spec fn sub_spec(self, other: BasicVector<B>) -> BasicVector<O> {
        BasicVector { x: self.x.sub_spec(other.x), y: self.y.sub_spec(other.y) }
    }
}

impl<O, T: Neg<Output = O>> Neg for BasicVector<T> {
    type Output = BasicVector<O>;

    /// The opposite displacement, coordinate by coordinate.
    fn neg(self) -> (r: BasicVector<O>) {
        BasicVector { x: self.x.neg(), y: self.y.neg() }
    }
}

impl<O, T: Neg<Output = O>> NegSpecImpl for BasicVector<T> {
    open spec fn obeys_neg_spec() -> bool {
        T::obeys_neg_spec()
    }

    open spec fn neg_req(self) -> bool {
        self.x.neg_req() && self.y.neg_req()
    }

    open spec fn neg_spec(self) -> BasicVector<O> {
        BasicVector { x: self.x.neg_spec(), y: self.y.neg_spec() }
    }
}

impl<T> From<(T, T)> for BasicPoint<T> {
    /// The point whose coordinates are the tuple's items, in their order.
    fn from(tuple: (T, T)) -> (r: BasicPoint<T>) {
        BasicPoint { x: tuple.0, y: tuple.1 }
    }
}

impl<T> FromSpecImpl<(T, T)> for BasicPoint<T> {
    open spec fn obeys_from_spec() -> bool {
        true
    }

    open spec fn from_spec(tuple: (T, T)) -> BasicPoint<T> {
        BasicPoint { x: tuple.0, y: tuple.1 }
    }
}

impl<T> From<(T, T)> for BasicVector<T> {
    /// The vector whose coordinates are the tuple's items, in their order.
    fn from(tuple: (T, T)) -> (r: BasicVector<T>) {
        BasicVector { x: tuple.0, y: tuple.1 }
    }
}

impl<T> FromSpecImpl<(T, T)> for BasicVector<T> {
    open spec fn obeys_from_spec() -> bool {
        true
    }

    open spec fn from_spec(tuple: (T, T)) -> BasicVector<T> {
        BasicVector { x: tuple.0, y: tuple.1 }
    }
}

} // verus!
