//! Scanlines: which pixels of a raster a triangle covers, and in which order
//! they are filled. All of it is exact integer arithmetic on the edges of the
//! triangle, so that nothing depends on accumulated rounding.

use crate::arith::{
    lemma_trunc_div_at_least, lemma_trunc_div_at_most, lemma_trunc_div_bounds,
    lemma_trunc_div_exact,
};
use crate::geometry::line::{horizontal_at, lemma_through_measures, reduction, through};
use crate::geometry::point::{
    collinear, cross, lemma_collinear_symmetric, lemma_cross_sum, lemma_cross_symmetric, Point,
};
use crate::geometry::segment::{span_between, Span};
use crate::geometry::triangle::{
    by_y, inside, lemma_sort3_sorted, rearranges, sort3, BasicTriangle, Triangle, Triangular,
};
use vstd::prelude::*;

verus! {

/// The x coordinate, rounded toward zero, at which the line through `end` and
/// `apex` crosses the height `y`.
pub open spec fn edge_x(end: Point, apex: Point, y: int) -> int {
    horizontal_at(y).meet_x(through(end, apex))
}

/// Whether `y` lies between the heights of the two points.
pub open spec fn between_heights(end: Point, apex: Point, y: int) -> bool {
    end.y <= y <= apex.y || apex.y <= y <= end.y
}

/// A row between the two ends of a slanted edge crosses the edge in a point of
/// that row, no further left or right than the edge's ends.
pub proof fn lemma_edge_crossing(end: Point, apex: Point, y: int)
    requires
        end.y != apex.y,
        between_heights(end, apex, y),
    ensures
        horizontal_at(y).meets_in_range(through(end, apex)),
        horizontal_at(y).meet_y(through(end, apex)) == y,
        end.x <= edge_x(end, apex, y) <= apex.x || apex.x <= edge_x(end, apex, y) <= end.x,
{
    let row = horizontal_at(y);
    let edge = through(end, apex);
    let d = row.denominator(edge);
    let n = row.c * edge.b - row.b * edge.c;
    assert(d == edge.a && n == -y * edge.b - edge.c && row.a * edge.c - row.c * edge.a == y
        * edge.a) by (nonlinear_arith)
        requires
            row.a == 0,
            row.b == 1,
            row.c == -y,
            d == row.b * edge.a - row.a * edge.b,
            n == row.c * edge.b - row.b * edge.c,
    ;
    lemma_trunc_div_exact(y, d);
    let lo = if end.x <= apex.x { end.x as int } else { apex.x as int };
    let hi = if end.x <= apex.x { apex.x as int } else { end.x as int };
    if end.x == apex.x {
        assert(n == end.x * d) by (nonlinear_arith)
            requires
                n == -y * edge.b - edge.c,
                edge.b == 0,
                edge.c == -end.x,
                d == 1,
        ;
        lemma_trunc_div_exact(end.x as int, d);
    } else {
        assert((d > 0 ==> lo * d <= n <= hi * d) && (d < 0 ==> hi * d <= n <= lo * d))
            by (nonlinear_arith)
            requires
                d == end.y - apex.y,
                n == -y * (apex.x - end.x) - (end.x * apex.y - end.y * apex.x),
                lo <= end.x <= hi,
                lo <= apex.x <= hi,
                end.y <= y <= apex.y || apex.y <= y <= end.y,
        {
            assert(n == end.x * (y - apex.y) + apex.x * (end.y - y));
            assert(d == (y - apex.y) + (end.y - y));
            if d > 0 {
                assert((end.x - lo) * (y - apex.y) >= 0);
                assert((apex.x - lo) * (end.y - y) >= 0);
                assert((hi - end.x) * (y - apex.y) >= 0);
                assert((hi - apex.x) * (end.y - y) >= 0);
            } else {
                assert((end.x - lo) * (y - apex.y) <= 0);
                assert((apex.x - lo) * (end.y - y) <= 0);
                assert((hi - end.x) * (y - apex.y) <= 0);
                assert((hi - apex.x) * (end.y - y) <= 0);
            }
        }
        lemma_trunc_div_bounds(n, d, lo, hi);
    }
}

/// The first row of the raster that a glued triangle reaches.
pub open spec fn first_row(span: Span, apex: Point) -> int {
    let top = if span.y() <= apex.y { span.y() } else { apex.y as int };
    if top >= 0 { top } else { 0 }
}

/// The last row of a raster of the given height that a glued triangle reaches.
pub open spec fn last_row(span: Span, apex: Point, height: int) -> int {
    let bottom = if span.y() <= apex.y { apex.y as int } else { span.y() };
    if bottom <= height - 1 { bottom } else { height - 1 }
}

/// The first pixel of a row that a glued triangle covers: where the edge from
/// the segment's left end to the apex crosses the row, but not left of the
/// raster.
pub open spec fn row_start(span: Span, apex: Point, y: int) -> int {
    let x = edge_x(span.left, apex, y);
    if x >= 0 { x } else { 0 }
}

/// The last pixel of a row that a glued triangle covers: where the edge from
/// the segment's right end to the apex crosses the row, but not right of the
/// raster.
pub open spec fn row_end(span: Span, apex: Point, width: int, y: int) -> int {
    let x = edge_x(span.right(), apex, y);
    if x <= width - 1 { x } else { width - 1 }
}

/// The pixels of one row that a glued triangle covers, from left to right.
pub open spec fn row(span: Span, apex: Point, width: int, y: int) -> Seq<Point> {
    let start = row_start(span, apex, y);
    let end = row_end(span, apex, width, y);
    Seq::new(
        (if end >= start { end - start + 1 } else { 0 }) as nat,
        |i: int| Point { x: (start + i) as i32, y: y as i32 },
    )
}

/// The pixels that a glued triangle covers in the rows `from` to `to`, row
/// after row.
pub open spec fn rows(span: Span, apex: Point, width: int, from: int, to: int) -> Seq<Point>
    decreases to - from + 1,
{
    if to < from {
        Seq::empty()
    } else {
        rows(span, apex, width, from, to - 1) + row(span, apex, width, to)
    }
}

/// The pixels of a raster that a glued triangle covers, in the order in which
/// they are filled: every row between the segment and the apex, and in each
/// row every pixel between the two slanted edges, the edges included.
pub open spec fn glued_pixels(span: Span, apex: Point, width: int, height: int) -> Seq<Point> {
    rows(span, apex, width, first_row(span, apex), last_row(span, apex, height))
}

/// Whether a glued triangle covers a pixel of a raster: the pixel's row lies
/// between the segment and the apex, and within the raster; in that row the
/// pixel lies between the two slanted edges, the edges included, and within
/// the raster.
pub open spec fn covers(span: Span, apex: Point, width: int, height: int, point: Point) -> bool {
    &&& first_row(span, apex) <= point.y <= last_row(span, apex, height)
    &&& row_start(span, apex, point.y as int) <= point.x <= row_end(
        span,
        apex,
        width,
        point.y as int,
    )
}

/// A row of a glued triangle holds exactly the pixels of that row between its
/// start and its end.
proof fn lemma_row_holds(span: Span, apex: Point, width: int, y: int, point: Point)
    requires
        span.y() != apex.y,
        span.right_x() <= i32::MAX,
        0 <= y,
        between_heights(span.left, apex, y),
    ensures
        row(span, apex, width, y).contains(point) <==> point.y == y && row_start(span, apex, y)
            <= point.x <= row_end(span, apex, width, y),
{
    let pixels = row(span, apex, width, y);
    let start = row_start(span, apex, y);
    let end = row_end(span, apex, width, y);
    lemma_edge_crossing(span.right(), apex, y);
    if pixels.contains(point) {
        let i = choose|i: int| 0 <= i < pixels.len() && pixels[i] == point;
        assert(pixels[i] == point);
    }
    if point.y == y && start <= point.x <= end {
        assert(pixels[point.x - start] == point);
    }
}

/// The rows of a glued triangle hold exactly the pixels that each of the rows
/// holds.
proof fn lemma_rows_hold(span: Span, apex: Point, width: int, from: int, to: int, point: Point)
    requires
        span.y() != apex.y,
        span.right_x() <= i32::MAX,
        0 <= from,
        from <= to ==> between_heights(span.left, apex, from) && between_heights(
            span.left,
            apex,
            to,
        ),
    ensures
        rows(span, apex, width, from, to).contains(point) <==> from <= point.y <= to && row_start(
            span,
            apex,
            point.y as int,
        ) <= point.x <= row_end(span, apex, width, point.y as int),
    decreases to - from + 1,
{
    if to >= from {
        let earlier = rows(span, apex, width, from, to - 1);
        let latest = row(span, apex, width, to);
        lemma_rows_hold(span, apex, width, from, to - 1, point);
        lemma_row_holds(span, apex, width, to, point);
        if (earlier + latest).contains(point) {
            let i = choose|i: int| 0 <= i < (earlier + latest).len() && (earlier + latest)[i]
                == point;
            if i < earlier.len() {
                assert(earlier[i] == point);
            } else {
                assert(latest[i - earlier.len()] == point);
            }
        }
        if earlier.contains(point) {
            let i = choose|i: int| 0 <= i < earlier.len() && earlier[i] == point;
            assert((earlier + latest)[i] == point);
        }
        if latest.contains(point) {
            let i = choose|i: int| 0 <= i < latest.len() && latest[i] == point;
            assert((earlier + latest)[earlier.len() + i] == point);
        }
    }
}

/// The pixels that are filled for a glued triangle are exactly the pixels that
/// the triangle covers.
pub proof fn lemma_glued_pixels_cover(
    span: Span,
    apex: Point,
    width: int,
    height: int,
    point: Point,
)
    requires
        span.y() != apex.y,
        span.right_x() <= i32::MAX,
    ensures
        glued_pixels(span, apex, width, height).contains(point) <==> covers(
            span,
            apex,
            width,
            height,
            point,
        ),
{
    lemma_rows_hold(
        span,
        apex,
        width,
        first_row(span, apex),
        last_row(span, apex, height),
        point,
    );
}

/// The triangle that a horizontal segment of some width and an apex off its
/// line span.
pub open spec fn spanned(span: Span, apex: Point) -> Triangle {
    BasicTriangle { a: apex, b: span.left, c: span.right() }
}

/// Where a point lies in a glued triangle, its height lies between those of
/// the segment and of the apex.
proof fn lemma_inside_between_heights(span: Span, apex: Point, point: Point)
    requires
        span.y() != apex.y,
        span.right_x() <= i32::MAX,
        span.width > 0,
        inside(spanned(span, apex), point),
    ensures
        between_heights(span.left, apex, point.y as int),
{
    let (a, l, r) = (apex, span.left, span.right());
    let w = span.width as int;
    lemma_cross_sum(a, l, r, point);
    lemma_cross_symmetric(a, l, r);
    let turn = cross(a, l, r);
    let below = cross(l, r, point);
    assert(below == w * (point.y - l.y) && turn == w * (a.y - l.y)) by (nonlinear_arith)
        requires
            below == (r.x - l.x) * (point.y - l.y) - (r.y - l.y) * (point.x - l.x),
            turn == (r.x - l.x) * (a.y - l.y) - (r.y - l.y) * (a.x - l.x),
            r.y == l.y,
            r.x - l.x == w,
    ;
    assert(l.y <= point.y <= a.y || a.y <= point.y <= l.y) by (nonlinear_arith)
        requires
            w > 0,
            below == w * (point.y - l.y),
            turn == w * (a.y - l.y),
            (turn > 0 && 0 <= below <= turn) || (turn <= 0 && turn <= below <= 0),
    ;
}

/// Where a point lies on the inner side of a slanted edge of a glued
/// triangle, the edge crosses the point's row on the outer side of the point.
proof fn lemma_edge_beside(end: Point, apex: Point, point: Point, turn: int)
    requires
        end.y != apex.y,
        turn == cross(end, apex, point),
    ensures
        ({
            let row = horizontal_at(point.y as int);
            let edge = through(end, apex);
            let d = row.denominator(edge);
            let n = row.c * edge.b - row.b * edge.c;
            &&& d != 0
            &&& (end.y - apex.y) * turn >= 0 ==> (d > 0 ==> n <= point.x * d) && (d < 0 ==> n
                >= point.x * d)
            &&& (end.y - apex.y) * turn <= 0 ==> (d > 0 ==> point.x * d <= n) && (d < 0 ==> point.x
                * d >= n)
        }),
{
    let row = horizontal_at(point.y as int);
    let edge = through(end, apex);
    let d = row.denominator(edge);
    let n = row.c * edge.b - row.b * edge.c;
    let k = reduction(end, apex);
    let v = edge.value_at(point);
    lemma_through_measures(end, apex, point);
    assert(d == edge.a && d * point.x - n == v) by (nonlinear_arith)
        requires
            row.a == 0,
            row.b == 1,
            row.c == -point.y,
            d == row.b * edge.a - row.a * edge.b,
            n == row.c * edge.b - row.b * edge.c,
            v == edge.a * point.x + edge.b * point.y + edge.c,
    ;
    // both sides of the question are multiples, by the same factor, of what is known
    assert(((end.y - apex.y) * turn >= 0) == (d * v >= 0) && ((end.y - apex.y) * turn <= 0) == (d
        * v <= 0) && d != 0) by (nonlinear_arith)
        requires
            k != 0,
            k * d == end.y - apex.y,
            k * v == turn,
            end.y != apex.y,
    {
        assert((end.y - apex.y) * turn == (k * k) * (d * v));
        assert(k * k > 0);
    }
    assert((d * v >= 0 ==> (d > 0 ==> n <= point.x * d) && (d < 0 ==> n >= point.x * d)) && (d * v
        <= 0 ==> (d > 0 ==> point.x * d <= n) && (d < 0 ==> point.x * d >= n)))
        by (nonlinear_arith)
        requires
            d != 0,
            d * point.x - n == v,
    ;
}

/// No pixel of the raster that lies in a glued triangle is left out when the
/// triangle is filled.
pub proof fn lemma_inside_is_covered(
    span: Span,
    apex: Point,
    width: int,
    height: int,
    point: Point,
)
    requires
        span.y() != apex.y,
        span.right_x() <= i32::MAX,
        span.width > 0,
        0 <= point.x < width,
        0 <= point.y < height,
        inside(spanned(span, apex), point),
    ensures
        covers(span, apex, width, height, point),
{
    let (a, l, r) = (apex, span.left, span.right());
    let w = span.width as int;
    let y = point.y as int;
    lemma_inside_between_heights(span, apex, point);
    lemma_cross_symmetric(a, l, r);
    lemma_cross_symmetric(a, l, point);
    let turn = cross(a, l, r);
    assert(turn == -((l.y - a.y) * w)) by (nonlinear_arith)
        requires
            turn == (l.x - a.x) * (r.y - a.y) - (l.y - a.y) * (r.x - a.x),
            r.y == l.y,
            r.x - l.x == w,
    ;
    // the left edge: the turn of the point about it has the sign of the height
    let left_turn = cross(l, a, point);
    let right_turn = cross(r, a, point);
    assert((l.y - a.y) * left_turn >= 0 && (r.y - a.y) * right_turn <= 0) by (nonlinear_arith)
        requires
            w > 0,
            l.y != a.y,
            r.y == l.y,
            turn == -((l.y - a.y) * w),
            (turn > 0 && -left_turn >= 0 && right_turn >= 0) || (turn <= 0 && -left_turn <= 0
                && right_turn <= 0),
    ;
    lemma_edge_beside(l, a, point, left_turn);
    lemma_edge_beside(r, a, point, right_turn);
    let row = horizontal_at(y);
    let left = through(l, a);
    let right = through(r, a);
    lemma_trunc_div_at_most(
        row.c * left.b - row.b * left.c,
        row.denominator(left),
        point.x as int,
    );
    lemma_trunc_div_at_least(
        row.c * right.b - row.b * right.c,
        row.denominator(right),
        point.x as int,
    );
}

/// The point at which the height of the middle vertex `b` cuts the long edge
/// from `a` to `c`.
pub open spec fn split_point(a: Point, b: Point, c: Point) -> Point {
    Point { x: edge_x(a, c, b.y as int) as i32, y: b.y }
}

/// The pixels of a raster that a triangle covers, in the order in which they
/// are filled. The height of the middle vertex cuts the triangle in two glued
/// triangles on one horizontal segment: first comes the one whose apex is the
/// top vertex, then the one whose apex is the bottom vertex, each left out
/// where its apex lies on the cut. The pixels of the cut belong to both.
pub open spec fn triangle_pixels(triangle: Triangle, width: int, height: int) -> Seq<Point> {
    let (a, b, c) = sort3(triangle.corners(), by_y());
    let span = span_between(b, split_point(a, b, c));
    let top = if a.y != b.y { glued_pixels(span, a, width, height) } else { Seq::empty() };
    let bottom = if c.y != b.y { glued_pixels(span, c, width, height) } else { Seq::empty() };
    top + bottom
}

/// A pixel is filled for a triangle exactly where one of the two glued
/// triangles covers it into which the height of the middle vertex cuts the
/// triangle.
pub proof fn lemma_triangle_pixels_cover(
    triangle: Triangle,
    width: int,
    height: int,
    point: Point,
)
    requires
        triangle.valid(),
    ensures
        triangle_pixels(triangle, width, height).contains(point) <==> {
            let (a, b, c) = sort3(triangle.corners(), by_y());
            let span = span_between(b, split_point(a, b, c));
            ||| a.y != b.y && covers(span, a, width, height, point)
            ||| c.y != b.y && covers(span, c, width, height, point)
        },
{
    let (a, b, c) = sort3(triangle.corners(), by_y());
    let span = span_between(b, split_point(a, b, c));
    let top: Seq<Point> = if a.y != b.y {
        glued_pixels(span, a, width, height)
    } else {
        Seq::empty()
    };
    let bottom: Seq<Point> = if c.y != b.y {
        glued_pixels(span, c, width, height)
    } else {
        Seq::empty()
    };
    lemma_sort3_sorted(triangle.corners(), by_y());
    lemma_collinear_symmetric(triangle.a, triangle.b, triangle.c);
    if a.y == c.y {
        assert(collinear(a, b, c)) by (nonlinear_arith)
            requires
                a.y == b.y,
                b.y == c.y,
                collinear(a, b, c) == ((b.x - a.x) * (c.y - a.y) - (b.y - a.y) * (c.x - a.x) == 0),
        ;
    }
    lemma_edge_crossing(a, c, b.y as int);
    if a.y != b.y {
        lemma_glued_pixels_cover(span, a, width, height, point);
    }
    if c.y != b.y {
        lemma_glued_pixels_cover(span, c, width, height, point);
    }
    if (top + bottom).contains(point) {
        let i = choose|i: int| 0 <= i < (top + bottom).len() && (top + bottom)[i] == point;
        if i < top.len() {
            assert(top[i] == point);
        } else {
            assert(bottom[i - top.len()] == point);
        }
    }
    if top.contains(point) {
        let i = choose|i: int| 0 <= i < top.len() && top[i] == point;
        assert((top + bottom)[i] == point);
    }
    if bottom.contains(point) {
        let i = choose|i: int| 0 <= i < bottom.len() && bottom[i] == point;
        assert((top + bottom)[top.len() + i] == point);
    }
}

/// A slanted edge crosses the height of each of its ends in that end.
pub proof fn lemma_edge_through_ends(end: Point, apex: Point)
    requires
        end.y != apex.y,
    ensures
        edge_x(end, apex, end.y as int) == end.x,
        edge_x(end, apex, apex.y as int) == apex.x,
{
    let edge = through(end, apex);
    let d = horizontal_at(0).denominator(edge);
    assert(d == edge.a) by (nonlinear_arith)
        requires
            d == 1 * edge.a - 0 * edge.b,
    ;
    let at_end = horizontal_at(end.y as int);
    let at_apex = horizontal_at(apex.y as int);
    assert(at_end.denominator(edge) == d && at_apex.denominator(edge) == d);
    let n_end = at_end.c * edge.b - at_end.b * edge.c;
    let n_apex = at_apex.c * edge.b - at_apex.b * edge.c;
    assert(n_end == end.x * d && n_apex == apex.x * d) by (nonlinear_arith)
        requires
            n_end == (-end.y) * edge.b - 1 * edge.c,
            n_apex == (-apex.y) * edge.b - 1 * edge.c,
            d == edge.a,
            end.x == apex.x ==> edge.a == 1 && edge.b == 0 && edge.c == -end.x,
            end.x != apex.x ==> edge.a == end.y - apex.y && edge.b == apex.x - end.x && edge.c
                == end.x * apex.y - end.y * apex.x,
    ;
    lemma_trunc_div_exact(end.x as int, d);
    lemma_trunc_div_exact(apex.x as int, d);
}

/// The pixels that are filled for a triangle do not depend on the order in
/// which its vertices are given.
pub proof fn lemma_fill_ignores_vertex_order(
    first: Triangle,
    second: Triangle,
    width: int,
    height: int,
)
    requires
        first.valid(),
        rearranges(first.corners(), second.corners()),
    ensures
        triangle_pixels(first, width, height) == triangle_pixels(second, width, height),
{
    let (a, b, c) = sort3(first.corners(), by_y());
    let (d, e, f) = sort3(second.corners(), by_y());
    lemma_sort3_sorted(first.corners(), by_y());
    lemma_sort3_sorted(second.corners(), by_y());
    lemma_collinear_symmetric(first.a, first.b, first.c);
    if a.y == c.y {
        assert(collinear(a, b, c)) by (nonlinear_arith)
            requires
                a.y == b.y,
                b.y == c.y,
                collinear(a, b, c) == ((b.x - a.x) * (c.y - a.y) - (b.y - a.y) * (c.x - a.x) == 0),
        ;
    }
    if (d, e, f) != (a, b, c) {
        if a.y == b.y {
            // the two upper vertices lie on the cut and have changed places
            assert((d, e, f) == (b, a, c));
            lemma_edge_through_ends(a, c);
            lemma_edge_through_ends(b, c);
            assert(split_point(a, b, c) == a);
            assert(split_point(b, a, c) == b);
            assert(span_between(b, a) == span_between(a, b));
        } else {
            // the two lower vertices lie on the cut and have changed places
            assert(b.y == c.y);
            assert((d, e, f) == (a, c, b));
            lemma_edge_through_ends(a, c);
            lemma_edge_through_ends(a, b);
            assert(split_point(a, b, c) == c);
            assert(split_point(a, c, b) == b);
            assert(span_between(b, c) == span_between(c, b));
        }
    }
}

} // verus!
