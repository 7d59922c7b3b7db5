//! Straight lines of the raster plane in exact integer arithmetic.

use crate::arith::{gcd, lemma_gcd_divides, magnitude, trunc_div, trunc_quotient};
use crate::geometry::point::{collinear, cross, Point};
use crate::linalg::Matrix2d;
use vstd::arithmetic::div_mod::lemma_fundamental_div_mod;
use vstd::prelude::*;
use vstd::std_specs::cmp::PartialEqSpecImpl;

verus! {

/// The coefficients of an equation `a x + b y + c = 0`.
pub struct Coefficients {
    pub a: int,
    pub b: int,
    pub c: int,
}

impl Coefficients {
    /// The value of the equation's left side at a point.
    pub open spec fn value_at(self, p: Point) -> int {
        self.a * p.x + self.b * p.y + self.c
    }

    /// Whether the point satisfies the equation.
    pub open spec fn holds(self, p: Point) -> bool {
        self.value_at(p) == 0
    }

    /// Whether the equation describes a line at all.
    pub open spec fn proper(self) -> bool {
        self.a != 0 || self.b != 0
    }

    /// Whether two equations describe one line: their coefficients are
    /// proportional.
    pub open spec fn same_line(self, other: Coefficients) -> bool {
        &&& self.a * other.b == other.a * self.b
        &&& self.a * other.c == other.a * self.c
        &&& self.b * other.c == other.b * self.c
    }

    /// The common denominator of Cramer's rule for the two equations.
    pub open spec fn denominator(self, other: Coefficients) -> int {
        self.b * other.a - self.a * other.b
    }

    /// Whether the two lines meet in exactly one point.
    pub open spec fn crosses(self, other: Coefficients) -> bool {
        self.denominator(other) != 0
    }

    /// The x coordinate of the common point, rounded toward zero.
    pub open spec fn meet_x(self, other: Coefficients) -> int {
        trunc_div(self.c * other.b - self.b * other.c, self.denominator(other))
    }

    /// The y coordinate of the common point, rounded toward zero.
    pub open spec fn meet_y(self, other: Coefficients) -> int {
        trunc_div(self.a * other.c - self.c * other.a, self.denominator(other))
    }

    /// Whether the common point, rounded toward zero, is a `Point`.
    pub open spec fn meets_in_range(self, other: Coefficients) -> bool {
        &&& self.crosses(other)
        &&& i32::MIN <= self.meet_x(other) <= i32::MAX
        &&& i32::MIN <= self.meet_y(other) <= i32::MAX
    }
}

/// The equation of the line through two distinct points.
pub open spec fn through(p: Point, q: Point) -> Coefficients {
    if p.x == q.x {
        Coefficients { a: 1, b: 0, c: -p.x }
    } else {
        Coefficients { a: p.y - q.y, b: q.x - p.x, c: p.x * q.y - p.y * q.x }
    }
}

/// The factor by which the step from `p` to `q` is longer than the direction
/// that the coefficients of `through(p, q)` give: a vertical line has the
/// coefficients of `x = c`, whatever the distance of the points.
pub open spec fn reduction(p: Point, q: Point) -> int {
    if p.x == q.x {
        p.y - q.y
    } else {
        1
    }
}

/// The equation of the horizontal line at height `y`.
pub open spec fn horizontal_at(y: int) -> Coefficients {
    Coefficients { a: 0, b: 1, c: -y }
}

/// A line `a x + b y + c = 0` with integer coefficients, `a` and `b` not both zero.
#[derive(Debug, Clone, Copy)]
pub struct Line {
    a: i64,
    b: i64,
    c: i64,
}

impl View for Line {
    type V = Coefficients;

    closed spec fn view(&self) -> Coefficients {
        Coefficients { a: self.a as int, b: self.b as int, c: self.c as int }
    }
}

/// The product of two integers of 64 bits, which 128 bits always hold.
fn wide_product(x: i64, y: i64) -> (r: i128)
    ensures
        r == x * y,
{
    assert(-0x4000_0000_0000_0000_0000_0000_0000_0000 <= x * y
        <= 0x4000_0000_0000_0000_0000_0000_0000_0000) by (nonlinear_arith)
        requires
            -0x8000_0000_0000_0000 <= x <= 0x8000_0000_0000_0000,
            -0x8000_0000_0000_0000 <= y <= 0x8000_0000_0000_0000,
    ;
    (x as i128) * (y as i128)
}

/// A product is bounded by the product of its factors' bounds.
proof fn lemma_product_bound(x: int, y: int, bx: int, by: int)
    requires
        -bx <= x <= bx,
        -by <= y <= by,
    ensures
        -(bx * by) <= x * y <= bx * by,
{
    assert(-(bx * by) <= x * y <= bx * by) by (nonlinear_arith)
        requires
            -bx <= x <= bx,
            -by <= y <= by,
    ;
}

/// Where one of two first coefficients is not zero and both are multiples
/// `p g` and `q g` of a common factor, the equations describe one line exactly
/// when the remaining coefficients are in the ratio of `p` to `q`.
proof fn lemma_same_line_reduced(l: Coefficients, m: Coefficients, g: int, p: int, q: int)
    requires
        g != 0,
        p != 0 || q != 0,
        l.a == p * g,
        m.a == q * g,
    ensures
        l.same_line(m) <==> (l.b * q == m.b * p && l.c * q == m.c * p),
{
    if l.same_line(m) {
        assert(l.b * q == m.b * p) by (nonlinear_arith)
            requires
                g != 0,
                l.a == p * g,
                m.a == q * g,
                l.a * m.b == m.a * l.b,
        {
            assert((p * m.b - q * l.b) * g == 0);
        }
        assert(l.c * q == m.c * p) by (nonlinear_arith)
            requires
                g != 0,
                l.a == p * g,
                m.a == q * g,
                l.a * m.c == m.a * l.c,
        {
            assert((p * m.c - q * l.c) * g == 0);
        }
    }
    if l.b * q == m.b * p && l.c * q == m.c * p {
        assert(l.a * m.b == m.a * l.b) by (nonlinear_arith)
            requires
                l.a == p * g,
                m.a == q * g,
                l.b * q == m.b * p,
        ;
        assert(l.a * m.c == m.a * l.c) by (nonlinear_arith)
            requires
                l.a == p * g,
                m.a == q * g,
                l.c * q == m.c * p,
        ;
        assert(l.b * m.c == m.b * l.c) by (nonlinear_arith)
            requires
                p != 0 || q != 0,
                l.b * q == m.b * p,
                l.c * q == m.c * p,
        {
            assert((l.b * m.c - m.b * l.c) * p == 0);
            assert((l.b * m.c - m.b * l.c) * q == 0);
        }
    }
}

/// The magnitude of a difference of two coordinates.
fn unsigned(x: i64) -> (r: u32)
    requires
        -0x1_0000_0000 < x < 0x1_0000_0000,
    ensures
        r == magnitude(x as int),
{
    if x < 0 {
        (-x) as u32
    } else {
        x as u32
    }
}

impl Line {
    /// The first two coefficients are differences of coordinates, and not
    /// both zero.
    #[verifier::type_invariant]
    spec fn well_formed(self) -> bool {
        &&& -0x1_0000_0000 < self.a < 0x1_0000_0000
        &&& -0x1_0000_0000 < self.b < 0x1_0000_0000
        &&& self.a != 0 || self.b != 0
    }

    /// The line through two distinct points.
    pub fn from_points(p: Point, q: Point) -> (line: Line)
        requires
            p != q,
        ensures
            line@ == through(p, q),
    {
        if p.x == q.x {
            Line { a: 1, b: 0, c: -(p.x as i64) }
        } else {
            let first = wide_product(p.x as i64, q.y as i64);
            let second = wide_product(p.y as i64, q.x as i64);
            proof {
                lemma_product_bound(p.x as int, q.y as int, 0x8000_0000, 0x8000_0000);
                lemma_product_bound(p.y as int, q.x as int, 0x8000_0000, 0x8000_0000);
                // a product is 2^62 only where both of its factors are -2^31,
                // and no product is less than 2^31 - 2^62
                assert(first - second < 0x8000_0000_0000_0000 && first - second
                    > -0x8000_0000_0000_0000) by (nonlinear_arith)
                    requires
                        first == p.x * q.y,
                        second == p.y * q.x,
                        -0x8000_0000 <= p.x < 0x8000_0000,
                        -0x8000_0000 <= p.y < 0x8000_0000,
                        -0x8000_0000 <= q.x < 0x8000_0000,
                        -0x8000_0000 <= q.y < 0x8000_0000,
                ;
            }
            Line {
                a: p.y as i64 - q.y as i64,
                b: q.x as i64 - p.x as i64,
                c: (first - second) as i64,
            }
        }
    }

    /// The horizontal line at height `y`.
    pub fn horizontal(y: i32) -> (line: Line)
        ensures
            line@ == horizontal_at(y as int),
    {
        Line { a: 0, b: 1, c: -(y as i64) }
    }

    /// Whether the point lies on the line.
    pub fn contains_point(self, point: Point) -> (r: bool)
        ensures
            r == self@.holds(point),
    {
        proof {
            use_type_invariant(&self);
            lemma_product_bound(self.a as int, point.x as int, 0x1_0000_0000, 0x8000_0000);
            lemma_product_bound(self.b as int, point.y as int, 0x1_0000_0000, 0x8000_0000);
        }
        wide_product(self.a, point.x as i64) + wide_product(self.b, point.y as i64)
            + self.c as i128 == 0
    }

    /// The common point of two lines that cross, each coordinate rounded
    /// toward zero; `None` where the lines do not cross or the point has a
    /// coordinate beyond the range of a `Point`.
    pub fn try_intersect(self, other: Line) -> (r: Option<Point>)
        ensures
            r.is_some() == self@.meets_in_range(other@),
            r matches Some(point) ==> point.x == self@.meet_x(other@) && point.y
                == self@.meet_y(other@),
    {
        proof {
            use_type_invariant(&self);
            use_type_invariant(&other);
            lemma_product_bound(
                self.c as int,
                other.b as int,
                0x8000_0000_0000_0000,
                0x1_0000_0000,
            );
            lemma_product_bound(
                self.b as int,
                other.c as int,
                0x1_0000_0000,
                0x8000_0000_0000_0000,
            );
            lemma_product_bound(
                self.a as int,
                other.c as int,
                0x1_0000_0000,
                0x8000_0000_0000_0000,
            );
            lemma_product_bound(
                self.c as int,
                other.a as int,
                0x8000_0000_0000_0000,
                0x1_0000_0000,
            );
            lemma_product_bound(self.b as int, other.a as int, 0x1_0000_0000, 0x1_0000_0000);
            lemma_product_bound(self.a as int, other.b as int, 0x1_0000_0000, 0x1_0000_0000);
        }
        let x_numerator = Matrix2d::from_rows(
            (self.c as i128, self.b as i128),
            (other.c as i128, other.b as i128),
        ).det();
        let y_numerator = Matrix2d::from_rows(
            (self.a as i128, self.c as i128),
            (other.a as i128, other.c as i128),
        ).det();
        let denominator = Matrix2d::from_rows(
            (self.b as i128, self.a as i128),
            (other.b as i128, other.a as i128),
        ).det();
        if denominator == 0 {
            return None;
        }
        let x = trunc_quotient(x_numerator, denominator);
        let y = trunc_quotient(y_numerator, denominator);
        if x < i32::MIN as i128 || x > i32::MAX as i128 || y < i32::MIN as i128 || y
            > i32::MAX as i128 {
            None
        } else {
            Some(Point { x: x as i32, y: y as i32 })
        }
    }

    /// The common point of two lines by Cramer's rule, each coordinate rounded
    /// toward zero.
    pub fn intersect(self, other: Line) -> (point: Point)
        requires
            self@.meets_in_range(other@),
        ensures
            point.x == self@.meet_x(other@),
            point.y == self@.meet_y(other@),
    {
        self.try_intersect(other).unwrap()
    }
}

impl PartialEq for Line {
    /// Whether two lines are the same set of points, whatever the scale and
    /// sign of their coefficients.
    fn eq(&self, other: &Line) -> (r: bool) {
        proof {
            use_type_invariant(self);
            use_type_invariant(other);
            lemma_product_bound(
                self.b as int,
                other.c as int,
                0x1_0000_0000,
                0x8000_0000_0000_0000,
            );
            lemma_product_bound(
                other.b as int,
                self.c as int,
                0x1_0000_0000,
                0x8000_0000_0000_0000,
            );
        }
        let ga = gcd(unsigned(self.a), unsigned(other.a));
        proof {
            lemma_gcd_divides(magnitude(self.a as int) as nat, magnitude(other.a as int) as nat);
        }
        if ga == 0 {
            let r = wide_product(self.b, other.c) == wide_product(other.b, self.c);
            proof {
                let (l, m) = (self@, other@);
                assert(l.a * m.b == m.a * l.b && l.a * m.c == m.a * l.c) by (nonlinear_arith)
                    requires
                        l.a == 0,
                        m.a == 0,
                ;
            }
            r
        } else {
            proof {
                lemma_fundamental_div_mod(magnitude(self.a as int), ga as int);
                lemma_fundamental_div_mod(magnitude(other.a as int), ga as int);
                assert(ga <= magnitude(self.a as int) || ga <= magnitude(other.a as int))
                    by (nonlinear_arith)
                    requires
                        ga > 0,
                        magnitude(self.a as int) == ga * (magnitude(self.a as int) / ga as int),
                        magnitude(other.a as int) == ga * (magnitude(other.a as int) / ga as int),
                        magnitude(self.a as int) != 0 || magnitude(other.a as int) != 0,
                        magnitude(self.a as int) >= 0,
                        magnitude(other.a as int) >= 0,
                ;
            }
            let g = ga as i64;
            let p = self.a / g;
            let q = other.a / g;
            proof {
                assert(self.a == p * g) by (nonlinear_arith)
                    requires
                        magnitude(self.a as int) == g * (magnitude(self.a as int) / g as int),
                        p == if self.a >= 0 {
                            self.a as int / g as int
                        } else {
                            -((-self.a) / g as int)
                        },
                        magnitude(self.a as int) == if self.a < 0 {
                            -self.a
                        } else {
                            self.a as int
                        },
                ;
                assert(other.a == q * g) by (nonlinear_arith)
                    requires
                        magnitude(other.a as int) == g * (magnitude(other.a as int) / g as int),
                        q == if other.a >= 0 {
                            other.a as int / g as int
                        } else {
                            -((-other.a) / g as int)
                        },
                        magnitude(other.a as int) == if other.a < 0 {
                            -other.a
                        } else {
                            other.a as int
                        },
                ;
                lemma_same_line_reduced(self@, other@, g as int, p as int, q as int);
            }
            let second = wide_product(self.b, q) == wide_product(other.b, p);
            let third = wide_product(self.c, q) == wide_product(other.c, p);
            second && third
        }
    }
}

impl PartialEqSpecImpl for Line {
    open spec fn obeys_eq_spec() -> bool {
        true
    }

    open spec fn eq_spec(&self, other: &Line) -> bool {
        self@.same_line(other@)
    }
}

impl Eq for Line {

}

/// The line through two distinct points does not depend on the order in which
/// the points are given.
pub proof fn lemma_from_points_symmetric(p: Point, q: Point)
    requires
        p != q,
    ensures
        through(p, q).same_line(through(q, p)),
{
    let l = through(p, q);
    let m = through(q, p);
    if p.x != q.x {
        assert(l.a * m.b == m.a * l.b) by (nonlinear_arith)
            requires
                l.a == -m.a,
                l.b == -m.b,
        ;
        assert(l.a * m.c == m.a * l.c) by (nonlinear_arith)
            requires
                l.a == -m.a,
                l.c == -m.c,
        ;
        assert(l.b * m.c == m.b * l.c) by (nonlinear_arith)
            requires
                l.b == -m.b,
                l.c == -m.c,
        ;
    }
}

/// A multiple of an equation's left side, term by term.
proof fn lemma_scaled_value(k: int, l: Coefficients, x: int, y: int)
    ensures
        k * (l.a * x + l.b * y + l.c) == (k * l.a) * x + (k * l.b) * y + k * l.c,
{
    assert(k * (l.a * x + l.b * y + l.c) == k * (l.a * x) + k * (l.b * y) + k * l.c)
        by (nonlinear_arith);
    assert(k * (l.a * x) == (k * l.a) * x) by (nonlinear_arith);
    assert(k * (l.b * y) == (k * l.b) * y) by (nonlinear_arith);
}

/// Two equations of one line hold at the same points.
pub proof fn lemma_same_line_same_points(l: Coefficients, m: Coefficients, p: Point)
    requires
        l.proper(),
        m.proper(),
        l.same_line(m),
    ensures
        l.holds(p) == m.holds(p),
{
    let at_l = l.a * p.x + l.b * p.y + l.c;
    let at_m = m.a * p.x + m.b * p.y + m.c;
    // the coefficient by which the lines are compared: one of `l` that is not zero
    let (k_l, k_m) = if l.a != 0 {
        (l.a, m.a)
    } else {
        (l.b, m.b)
    };
    lemma_scaled_value(k_l, m, p.x as int, p.y as int);
    lemma_scaled_value(k_m, l, p.x as int, p.y as int);
    assert(l.a * m.a == m.a * l.a && l.b * m.b == m.b * l.b) by (nonlinear_arith);
    assert(l.b * m.a == m.b * l.a) by (nonlinear_arith)
        requires
            l.a * m.b == m.a * l.b,
    ;
    assert(k_l * at_m == k_m * at_l);
    assert(k_m != 0) by (nonlinear_arith)
        requires
            k_l != 0,
            l.a * m.b == m.a * l.b,
            m.a != 0 || m.b != 0,
            (k_l == l.a && k_m == m.a) || (l.a == 0 && k_l == l.b && k_m == m.b),
    ;
    assert((at_l == 0) == (at_m == 0)) by (nonlinear_arith)
        requires
            k_l * at_m == k_m * at_l,
            k_l != 0,
            k_m != 0,
    ;
}

/// Both points that define a line lie on it, and the line is a proper one.
pub proof fn lemma_through_holds(p: Point, q: Point)
    requires
        p != q,
    ensures
        through(p, q).holds(p),
        through(p, q).holds(q),
        through(p, q).proper(),
{
    let l = through(p, q);
    if p.x != q.x {
        assert(l.a * p.x + l.b * p.y + l.c == 0) by (nonlinear_arith)
            requires
                l.a == p.y - q.y,
                l.b == q.x - p.x,
                l.c == p.x * q.y - p.y * q.x,
        ;
        assert(l.a * q.x + l.b * q.y + l.c == 0) by (nonlinear_arith)
            requires
                l.a == p.y - q.y,
                l.b == q.x - p.x,
                l.c == p.x * q.y - p.y * q.x,
        ;
    }
}

/// A point lies on the line through two distinct points exactly when the
/// three are collinear.
pub proof fn lemma_through_collinear(a: Point, b: Point, p: Point)
    requires
        a != b,
    ensures
        through(a, b).holds(p) == collinear(a, b, p),
{
    let l = through(a, b);
    if a.x != b.x {
        assert(l.a * p.x + l.b * p.y + l.c == cross(a, b, p)) by (nonlinear_arith)
            requires
                l.a == a.y - b.y,
                l.b == b.x - a.x,
                l.c == a.x * b.y - a.y * b.x,
                cross(a, b, p) == (b.x - a.x) * (p.y - a.y) - (b.y - a.y) * (p.x - a.x),
        ;
    } else {
        assert(cross(a, b, p) == 0 <==> p.x - a.x == 0) by (nonlinear_arith)
            requires
                b.x - a.x == 0,
                b.y - a.y != 0,
                cross(a, b, p) == (b.x - a.x) * (p.y - a.y) - (b.y - a.y) * (p.x - a.x),
        ;
    }
}

/// The coefficients of the line through two points give its direction, and
/// its equation's value at a third point is that point's turn about the two.
pub proof fn lemma_through_measures(p: Point, q: Point, r: Point)
    requires
        p != q,
    ensures
        reduction(p, q) != 0,
        reduction(p, q) * through(p, q).b == q.x - p.x,
        reduction(p, q) * through(p, q).a == p.y - q.y,
        reduction(p, q) * through(p, q).value_at(r) == cross(p, q, r),
        through(p, q).value_at(p) == 0,
        through(p, q).value_at(q) == 0,
{
    let k = reduction(p, q);
    let l = through(p, q);
    lemma_through_holds(p, q);
    if p.x == q.x {
        assert(k * l.b == q.x - p.x && k * l.a == p.y - q.y && k * l.value_at(r) == cross(p, q, r))
            by (nonlinear_arith)
            requires
                k == p.y - q.y,
                l.a == 1,
                l.b == 0,
                l.c == -p.x,
                p.x == q.x,
                l.value_at(r) == l.a * r.x + l.b * r.y + l.c,
                cross(p, q, r) == (q.x - p.x) * (r.y - p.y) - (q.y - p.y) * (r.x - p.x),
        ;
    } else {
        assert(l.value_at(r) == cross(p, q, r)) by (nonlinear_arith)
            requires
                l.a == p.y - q.y,
                l.b == q.x - p.x,
                l.c == p.x * q.y - p.y * q.x,
                l.value_at(r) == l.a * r.x + l.b * r.y + l.c,
                cross(p, q, r) == (q.x - p.x) * (r.y - p.y) - (q.y - p.y) * (r.x - p.x),
        ;
        assert(k * l.b == q.x - p.x && k * l.a == p.y - q.y && k * l.value_at(r) == l.value_at(r));
    }
}

} // verus!
