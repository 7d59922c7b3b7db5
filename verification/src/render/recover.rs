//! Coordinate recovery: from a pixel of a projected triangle back to the point
//! of the triangle in space that is seen there.
//!
//! The projection is not affine, so the point is found by two interpolations
//! along lines: first the pivot, where the line from the first vertex through
//! the pixel meets the opposite edge, is recovered on that edge; then the pixel
//! is recovered between the first vertex and the pivot. The geometry of the
//! raster plane is exact; one interpolation along a line in space is the
//! caller's to supply.

use crate::arith::lemma_trunc_div_scaled_bounds;
use crate::geometry::line::{lemma_through_measures, reduction, through, Coefficients, Line};
use crate::geometry::point::{cross, lemma_cross_symmetric, Point};
use crate::geometry::triangle::{inside, Triangle};
use vstd::prelude::*;

verus! {

/// Whether a pixel is a vertex of the triangle, or the line from the first
/// vertex through the pixel meets the line of the opposite edge in a point of
/// the raster plane.
pub open spec fn has_pivot(triangle_on_screen: Triangle, point_on_screen: Point) -> bool {
    ||| point_on_screen == triangle_on_screen.a
    ||| point_on_screen == triangle_on_screen.b
    ||| point_on_screen == triangle_on_screen.c
    ||| through(triangle_on_screen.b, triangle_on_screen.c).meets_in_range(
        through(triangle_on_screen.a, point_on_screen),
    )
}

/// The pivot of a pixel: where the line from the first vertex through the
/// pixel meets the line of the opposite edge, each coordinate rounded toward
/// zero.
pub open spec fn pivot(triangle_on_screen: Triangle, point_on_screen: Point) -> Point {
    let base = through(triangle_on_screen.b, triangle_on_screen.c);
    let ray = through(triangle_on_screen.a, point_on_screen);
    Point { x: base.meet_x(ray) as i32, y: base.meet_y(ray) as i32 }
}

/// Whether `recovered` is what coordinate recovery gives for a pixel. For a
/// vertex of the projected triangle it is the vertex in space itself. For the
/// pivot it is what one interpolation gives between the second and the third
/// vertex. For any other pixel it is what a second interpolation gives between
/// the first vertex and the pivot.
pub open spec fn recovers<P, L: Fn(Point, (Point, P), (Point, P)) -> P>(
    triangle_on_screen: Triangle,
    triangle: (P, P, P),
    point_on_screen: Point,
    linear_untranslate: L,
    recovered: P,
) -> bool {
    if point_on_screen == triangle_on_screen.a {
        recovered == triangle.0
    } else if point_on_screen == triangle_on_screen.b {
        recovered == triangle.1
    } else if point_on_screen == triangle_on_screen.c {
        recovered == triangle.2
    } else {
        let pivot_point = pivot(triangle_on_screen, point_on_screen);
        exists|pivot_point_3d: P| #[trigger]
            call_ensures(
                linear_untranslate,
                (
                    pivot_point,
                    (triangle_on_screen.b, triangle.1),
                    (triangle_on_screen.c, triangle.2),
                ),
                pivot_point_3d,
            ) && if point_on_screen == pivot_point {
                recovered == pivot_point_3d
            } else {
                call_ensures(
                    linear_untranslate,
                    (
                        point_on_screen,
                        (triangle_on_screen.a, triangle.0),
                        (pivot_point, pivot_point_3d),
                    ),
                    recovered,
                )
            }
    }
}

/// The point of a triangle in space that is seen at a pixel of the triangle's
/// projection. `triangle` holds the vertices in space in the order of the
/// projected ones; `linear_untranslate(p, (a2, a3), (b2, b3))` recovers the
/// point seen at `p` on the line through `a3` and `b3`, which are seen at `a2`
/// and `b2`.
pub fn bilinear_untranslate<P: Copy, L: Fn(Point, (Point, P), (Point, P)) -> P>(
    triangle_on_screen: Triangle,
    triangle: (P, P, P),
    point_on_screen: Point,
    linear_untranslate: &L,
) -> (recovered: P)
    requires
        triangle_on_screen.valid(),
        has_pivot(triangle_on_screen, point_on_screen),
        forall|p: Point, a: (Point, P), b: (Point, P)|
            call_requires(*linear_untranslate, (p, a, b)),
    ensures
        recovers(triangle_on_screen, triangle, point_on_screen, *linear_untranslate, recovered),
        point_on_screen == triangle_on_screen.a ==> recovered == triangle.0,
        point_on_screen == triangle_on_screen.b ==> recovered == triangle.1,
        point_on_screen == triangle_on_screen.c ==> recovered == triangle.2,
{
    if point_on_screen == triangle_on_screen.a {
        return triangle.0;
    }
    if point_on_screen == triangle_on_screen.b {
        return triangle.1;
    }
    if point_on_screen == triangle_on_screen.c {
        return triangle.2;
    }
    let base_line = Line::from_points(triangle_on_screen.b, triangle_on_screen.c);
    let pivot_line = Line::from_points(triangle_on_screen.a, point_on_screen);
    let pivot_point = base_line.intersect(pivot_line);
    let pivot_point_3d = linear_untranslate(
        pivot_point,
        (triangle_on_screen.b, triangle.1),
        (triangle_on_screen.c, triangle.2),
    );

    if point_on_screen == pivot_point {
        return pivot_point_3d;
    }
    linear_untranslate(
        point_on_screen,
        (triangle_on_screen.a, triangle.0),
        (pivot_point, pivot_point_3d),
    )
}

/// Cramer's rule, seen from a point `(x, y)` of the first line: how far the
/// numerators are from the point's coordinates times the denominator is
/// measured by the second equation's value `v` at the point.
proof fn lemma_cramer_from_point(l: Coefficients, m: Coefficients, x: int, y: int, v: int)
    requires
        l.a * x + l.b * y + l.c == 0,
        v == m.a * x + m.b * y + m.c,
    ensures
        (l.c * m.b - l.b * m.c) - x * l.denominator(m) == -(l.b * v),
        (l.a * m.c - l.c * m.a) - y * l.denominator(m) == l.a * v,
{
    let (a1, b1, c1, a2, b2, c2) = (l.a, l.b, l.c, m.a, m.b, m.c);
    assert(c1 * b2 == -(a1 * x * b2) - b1 * y * b2) by (nonlinear_arith)
        requires
            c1 == -(a1 * x) - b1 * y,
    ;
    assert(c1 * a2 == -(a1 * x * a2) - b1 * y * a2) by (nonlinear_arith)
        requires
            c1 == -(a1 * x) - b1 * y,
    ;
    assert(x * (b1 * a2 - a1 * b2) == b1 * x * a2 - a1 * x * b2) by (nonlinear_arith);
    assert(y * (b1 * a2 - a1 * b2) == b1 * y * a2 - a1 * y * b2) by (nonlinear_arith);
    assert(b1 * v == b1 * x * a2 + b1 * y * b2 + b1 * c2) by (nonlinear_arith)
        requires
            v == a2 * x + b2 * y + c2,
    ;
    assert(a1 * v == a1 * x * a2 + a1 * y * b2 + a1 * c2) by (nonlinear_arith)
        requires
            v == a2 * x + b2 * y + c2,
    ;
}

/// A point that lies on two lines through a vertex of a triangle, each
/// through one of the other vertices, is that vertex.
proof fn lemma_corner(a: Point, b: Point, c: Point, p: Point)
    requires
        cross(a, b, c) != 0,
        cross(a, b, p) == 0,
        cross(c, a, p) == 0,
    ensures
        p == a,
{
    let (ux, uy) = (p.x - a.x, p.y - a.y);
    let (ex, ey) = (b.x - a.x, b.y - a.y);
    let (fx, fy) = (c.x - a.x, c.y - a.y);
    let turn = ex * fy - ey * fx;
    assert(cross(c, a, p) == -(fx * uy - fy * ux)) by (nonlinear_arith)
        requires
            cross(c, a, p) == (a.x - c.x) * (p.y - c.y) - (a.y - c.y) * (p.x - c.x),
            fx == c.x - a.x,
            fy == c.y - a.y,
            ux == p.x - a.x,
            uy == p.y - a.y,
    ;
    assert(ux * turn == 0 && uy * turn == 0) by (nonlinear_arith)
        requires
            ex * uy - ey * ux == 0,
            fx * uy - fy * ux == 0,
            turn == ex * fy - ey * fx,
    {
        assert(ux * turn == ex * (ux * fy) - fx * (ux * ey));
        assert(uy * turn == fy * (uy * ex) - ey * (uy * fx));
    }
    assert(ux == 0 && uy == 0) by (nonlinear_arith)
        requires
            ux * turn == 0,
            uy * turn == 0,
            turn != 0,
    ;
}

/// Every pixel in a triangle has a pivot, and the pivot lies between the
/// second and the third vertex.
pub proof fn lemma_inside_has_pivot(triangle_on_screen: Triangle, point_on_screen: Point)
    requires
        triangle_on_screen.valid(),
        inside(triangle_on_screen, point_on_screen),
    ensures
        has_pivot(triangle_on_screen, point_on_screen),
        point_on_screen != triangle_on_screen.a ==> {
            let (b, c) = (triangle_on_screen.b, triangle_on_screen.c);
            let at = pivot(triangle_on_screen, point_on_screen);
            &&& (b.x <= at.x <= c.x || c.x <= at.x <= b.x)
            &&& (b.y <= at.y <= c.y || c.y <= at.y <= b.y)
        },
{
    let (a, b, c) = (triangle_on_screen.a, triangle_on_screen.b, triangle_on_screen.c);
    let p = point_on_screen;
    if p != a {
        let base = through(b, c);
        let ray = through(a, p);
        let k1 = reduction(b, c);
        let k2 = reduction(a, p);
        // the ray's equation at the ends of the base: of opposite signs, not both zero
        let rb = ray.value_at(b);
        let rc = ray.value_at(c);
        lemma_through_measures(b, c, a);
        lemma_through_measures(a, p, b);
        lemma_through_measures(a, p, c);
        lemma_cross_symmetric(a, p, b);
        lemma_cross_symmetric(a, p, c);
        let s1 = cross(a, b, p);
        let s3 = cross(c, a, p);
        assert(k2 * rb == -s1 && k2 * rc == s3);
        if s1 == 0 && s3 == 0 {
            lemma_corner(a, b, c, p);
        }
        assert((rb <= 0 && rc >= 0 || rb >= 0 && rc <= 0) && (rb != 0 || rc != 0))
            by (nonlinear_arith)
            requires
                k2 != 0,
                k2 * rb == -s1,
                k2 * rc == s3,
                (s1 >= 0 && s3 >= 0) || (s1 <= 0 && s3 <= 0),
                s1 != 0 || s3 != 0,
        ;
        let den = base.denominator(ray);
        let x_num = base.c * ray.b - base.b * ray.c;
        let y_num = base.a * ray.c - base.c * ray.a;
        lemma_cramer_from_point(base, ray, b.x as int, b.y as int, rb);
        lemma_cramer_from_point(base, ray, c.x as int, c.y as int, rc);
        assert(den * k1 == rc - rb) by (nonlinear_arith)
            requires
                den == base.b * ray.a - base.a * ray.b,
                rb == ray.a * b.x + ray.b * b.y + ray.c,
                rc == ray.a * c.x + ray.b * c.y + ray.c,
                k1 * base.b == c.x - b.x,
                k1 * base.a == b.y - c.y,
        {
            assert(rc - rb == ray.a * (c.x - b.x) + ray.b * (c.y - b.y));
            assert(ray.a * (k1 * base.b) == base.b * ray.a * k1);
            assert(ray.b * (k1 * base.a) == base.a * ray.b * k1);
        }
        let lo_x = if b.x <= c.x { b.x as int } else { c.x as int };
        let hi_x = if b.x <= c.x { c.x as int } else { b.x as int };
        let lo_y = if b.y <= c.y { b.y as int } else { c.y as int };
        let hi_y = if b.y <= c.y { c.y as int } else { b.y as int };
        assert((den * k1 > 0 ==> lo_x * (den * k1) <= x_num * k1 <= hi_x * (den * k1)) && (den * k1
            < 0 ==> hi_x * (den * k1) <= x_num * k1 <= lo_x * (den * k1))) by (nonlinear_arith)
            requires
                den * k1 == rc - rb,
                x_num - b.x * den == -(base.b * rb),
                x_num - c.x * den == -(base.b * rc),
                k1 * base.b == c.x - b.x,
                rb <= 0 && rc >= 0 || rb >= 0 && rc <= 0,
                lo_x == if b.x <= c.x { b.x as int } else { c.x as int },
                hi_x == if b.x <= c.x { c.x as int } else { b.x as int },
        {
            assert(x_num * k1 - b.x * (den * k1) == -((k1 * base.b) * rb));
            assert(x_num * k1 - c.x * (den * k1) == -((k1 * base.b) * rc));
            if rb <= 0 && rc >= 0 {
                if b.x <= c.x {
                    assert((c.x - b.x) * rb <= 0 && (c.x - b.x) * rc >= 0);
                } else {
                    assert((c.x - b.x) * rb >= 0 && (c.x - b.x) * rc <= 0);
                }
            } else {
                if b.x <= c.x {
                    assert((c.x - b.x) * rb >= 0 && (c.x - b.x) * rc <= 0);
                } else {
                    assert((c.x - b.x) * rb <= 0 && (c.x - b.x) * rc >= 0);
                }
            }
        }
        assert((den * k1 > 0 ==> lo_y * (den * k1) <= y_num * k1 <= hi_y * (den * k1)) && (den * k1
            < 0 ==> hi_y * (den * k1) <= y_num * k1 <= lo_y * (den * k1))) by (nonlinear_arith)
            requires
                den * k1 == rc - rb,
                y_num - b.y * den == base.a * rb,
                y_num - c.y * den == base.a * rc,
                k1 * base.a == b.y - c.y,
                rb <= 0 && rc >= 0 || rb >= 0 && rc <= 0,
                lo_y == if b.y <= c.y { b.y as int } else { c.y as int },
                hi_y == if b.y <= c.y { c.y as int } else { b.y as int },
        {
            assert(y_num * k1 - b.y * (den * k1) == (k1 * base.a) * rb);
            assert(y_num * k1 - c.y * (den * k1) == (k1 * base.a) * rc);
            if rb <= 0 && rc >= 0 {
                if b.y <= c.y {
                    assert((b.y - c.y) * rb >= 0 && (b.y - c.y) * rc <= 0);
                } else {
                    assert((b.y - c.y) * rb <= 0 && (b.y - c.y) * rc >= 0);
                }
            } else {
                if b.y <= c.y {
                    assert((b.y - c.y) * rb <= 0 && (b.y - c.y) * rc >= 0);
                } else {
                    assert((b.y - c.y) * rb >= 0 && (b.y - c.y) * rc <= 0);
                }
            }
        }
        lemma_trunc_div_scaled_bounds(x_num, den, k1, lo_x, hi_x);
        lemma_trunc_div_scaled_bounds(y_num, den, k1, lo_y, hi_y);
    }
}

} // verus!
