//! The rasterizer: the raster of pixels, what painting a run of pixels does to
//! it, and the filling of triangles row by row.

use crate::geometry::line::{through, Line};
use crate::geometry::point::{collinear, lemma_collinear_symmetric, Point};
use crate::geometry::segment::HorizontalSegment;
use crate::geometry::triangle::{by_y, lemma_sort3_sorted, GluedTriangle, Triangle, Triangular};
use crate::render::color::{ColorFunc, RGB};
use crate::render::scanline::{
    first_row, glued_pixels, last_row, lemma_edge_crossing, row, row_end, row_start, rows,
    triangle_pixels,
};
use vstd::prelude::*;

verus! {

/// What a raster is: its bytes, four for each pixel, row after row.
pub struct RasterView {
    pub bytes: Seq<u8>,
    pub width: nat,
    pub height: nat,
}

impl RasterView {
    /// Whether the raster holds four bytes for each pixel.
    pub open spec fn well_formed(self) -> bool {
        self.bytes.len() == 4 * (self.width * self.height)
    }

    /// Whether the coordinates name a pixel of the raster.
    pub open spec fn in_bounds(self, x: int, y: int) -> bool {
        0 <= x < self.width && 0 <= y < self.height
    }

    /// The place of a pixel's first byte.
    pub open spec fn offset(self, x: int, y: int) -> int {
        (self.width * y + x) * 4
    }

    /// The raster with one pixel set to a colour: its blue, green and red
    /// parts stand in the pixel's first three bytes. Out of bounds nothing
    /// changes.
    pub open spec fn put(self, x: int, y: int, color: RGB) -> RasterView {
        if self.in_bounds(x, y) {
            let at = self.offset(x, y);
            RasterView {
                bytes: self.bytes.update(at, color.b).update(at + 1, color.g).update(
                    at + 2,
                    color.r,
                ),
                ..self
            }
        } else {
            self
        }
    }
}

/// The bytes of a pixel in bounds lie within the raster.
pub proof fn lemma_offset_in_raster(raster: RasterView, x: int, y: int)
    requires
        raster.well_formed(),
        raster.in_bounds(x, y),
    ensures
        0 <= raster.offset(x, y),
        raster.offset(x, y) + 4 <= raster.bytes.len(),
{
    assert(raster.width * y + x < raster.width * raster.height && 0 <= raster.width * y)
        by (nonlinear_arith)
        requires
            0 <= x < raster.width,
            0 <= y < raster.height,
    ;
}

/// The raster and the filler's state after the filler was asked for each of
/// the pixels in turn and every colour it gave was put into the raster.
pub open spec fn paint<F: ColorFunc>(raster: RasterView, state: F::State, pixels: Seq<Point>) -> (
    RasterView,
    F::State,
)
    decreases pixels.len(),
{
    if pixels.len() == 0 {
        (raster, state)
    } else {
        let (raster, state) = paint::<F>(raster, state, pixels.drop_last());
        let point = pixels.last();
        (
            match F::color_in(state, point) {
                Some(color) => raster.put(point.x as int, point.y as int, color),
                None => raster,
            },
            F::state_after(state, point),
        )
    }
}

/// Painting two runs of pixels one after the other is painting their
/// concatenation.
pub proof fn lemma_paint_concat<F: ColorFunc>(
    raster: RasterView,
    state: F::State,
    first: Seq<Point>,
    second: Seq<Point>,
)
    ensures
        paint::<F>(raster, state, first + second) == paint::<F>(
            paint::<F>(raster, state, first).0,
            paint::<F>(raster, state, first).1,
            second,
        ),
    decreases second.len(),
{
    if second.len() == 0 {
        assert(first + second =~= first);
    } else {
        lemma_paint_concat::<F>(raster, state, first, second.drop_last());
        assert((first + second).drop_last() =~= first + second.drop_last());
    }
}

/// Painting keeps the raster's size and its well-formedness.
pub proof fn lemma_paint_keeps_shape<F: ColorFunc>(
    raster: RasterView,
    state: F::State,
    pixels: Seq<Point>,
)
    requires
        raster.well_formed(),
    ensures
        paint::<F>(raster, state, pixels).0.well_formed(),
        paint::<F>(raster, state, pixels).0.width == raster.width,
        paint::<F>(raster, state, pixels).0.height == raster.height,
    decreases pixels.len(),
{
    if pixels.len() > 0 {
        lemma_paint_keeps_shape::<F>(raster, state, pixels.drop_last());
        let before = paint::<F>(raster, state, pixels.drop_last()).0;
        let point = pixels.last();
        if before.in_bounds(point.x as int, point.y as int) {
            lemma_offset_in_raster(before, point.x as int, point.y as int);
        }
    }
}

/// Two pixels in bounds of one raster share no byte.
pub proof fn lemma_pixels_apart(raster: RasterView, x: int, y: int, other_x: int, other_y: int)
    requires
        raster.in_bounds(x, y),
        raster.in_bounds(other_x, other_y),
        x != other_x || y != other_y,
    ensures
        raster.offset(x, y) + 4 <= raster.offset(other_x, other_y) || raster.offset(
            other_x,
            other_y,
        ) + 4 <= raster.offset(x, y),
{
    let w = raster.width as int;
    if y < other_y {
        assert(w * y + x < w * other_y + other_x) by (nonlinear_arith)
            requires
                0 <= x < w,
                0 <= other_x,
                y + 1 <= other_y,
        ;
    } else if other_y < y {
        assert(w * other_y + other_x < w * y + x) by (nonlinear_arith)
            requires
                0 <= other_x < w,
                0 <= x,
                other_y + 1 <= y,
        ;
    }
}

/// Painting changes no byte of a pixel that is not among the painted ones,
/// and never the fourth byte of any pixel.
pub proof fn lemma_paint_leaves_the_rest<F: ColorFunc>(
    raster: RasterView,
    state: F::State,
    pixels: Seq<Point>,
    x: int,
    y: int,
    part: int,
)
    requires
        raster.well_formed(),
        raster.in_bounds(x, y),
        0 <= part < 4,
        part == 3 || forall|i: int| 0 <= i < pixels.len() ==> pixels[i].x != x || pixels[i].y != y,
    ensures
        paint::<F>(raster, state, pixels).0.bytes[raster.offset(x, y) + part]
            == raster.bytes[raster.offset(x, y) + part],
    decreases pixels.len(),
{
    if pixels.len() > 0 {
        let earlier = pixels.drop_last();
        lemma_paint_leaves_the_rest::<F>(raster, state, earlier, x, y, part);
        lemma_paint_keeps_shape::<F>(raster, state, earlier);
        let before = paint::<F>(raster, state, earlier).0;
        let point = pixels.last();
        lemma_offset_in_raster(before, x, y);
        if before.in_bounds(point.x as int, point.y as int) {
            lemma_offset_in_raster(before, point.x as int, point.y as int);
            if point.x != x || point.y != y {
                lemma_pixels_apart(before, x, y, point.x as int, point.y as int);
            }
        }
    }
}

/// A raster of `width` by `height` pixels over a buffer of four bytes for each
/// pixel, row after row; a pixel's first three bytes hold its blue, green and
/// red parts.
pub struct Rasterizer<'a> {
    data: &'a mut [u8],
    width: u32,
    height: u32,
}

impl<'a> View for Rasterizer<'a> {
    type V = RasterView;

    closed spec fn view(&self) -> RasterView {
        RasterView { bytes: self.data@, width: self.width as nat, height: self.height as nat }
    }
}

impl<'a> Rasterizer<'a> {
    /// The buffer holds four bytes for each pixel.
    #[verifier::type_invariant]
    spec fn four_bytes_per_pixel(self) -> bool {
        self.data@.len() == 4 * (self.width * self.height)
    }

    /// The raster of the given size over the given buffer.
    pub fn new(data: &'a mut [u8], width: u32, height: u32) -> (rasterizer: Rasterizer<'a>)
        requires
            old(data)@.len() == 4 * (width * height),
        ensures
            rasterizer@.bytes == old(data)@,
            rasterizer@.width == width,
            rasterizer@.height == height,
            rasterizer@.well_formed(),
    {
        Rasterizer { data, width, height }
    }

    /// Sets the pixel to the colour; out of bounds nothing changes.
    pub fn set(&mut self, x: u32, y: u32, value: RGB)
        ensures
            final(self)@ == old(self)@.put(x as int, y as int, value),
    {
        proof {
            use_type_invariant(&*self);
        }
        if x < self.width && y < self.height {
            let blue = self.index_at(x, y, 0);
            let green = self.index_at(x, y, 1);
            let red = self.index_at(x, y, 2);
            self.data[blue] = value.b;
            self.data[green] = value.g;
            self.data[red] = value.r;
        }
    }

    /// The place in the buffer of one of the four bytes of a pixel in bounds.
    pub fn index_at(&self, x: u32, y: u32, component: u32) -> (index: usize)
        requires
            self@.in_bounds(x as int, y as int),
            component < 4,
        ensures
            index == self@.offset(x as int, y as int) + component,
            index < self@.bytes.len(),
    {
        proof {
            use_type_invariant(self);
            lemma_offset_in_raster(self@, x as int, y as int);
            assert(self.data@.len() == self.data.len());
            assert(0 <= self.width * y) by (nonlinear_arith)
                requires
                    0 <= self.width,
                    0 <= y,
            ;
        }
        (self.width as usize * y as usize + x as usize) * 4 + component as usize
    }

    /// Fills a triangle: asks the filler for the colour of every pixel that
    /// the triangle covers, in the order of `triangle_pixels`, and sets each
    /// pixel for which the filler gives a colour.
    pub fn fill_triangle<F: ColorFunc>(&mut self, tri: Triangle, color_func: &mut F)
        requires
            tri.valid(),
        ensures
            (final(self)@, final(color_func).state()) == paint::<F>(
                old(self)@,
                old(color_func).state(),
                triangle_pixels(tri, old(self)@.width as int, old(self)@.height as int),
            ),
    {
        let (a, b, c) = tri.ysort();
        proof {
            use_type_invariant(&*self);
            lemma_sort3_sorted(tri.corners(), by_y());
            lemma_collinear_symmetric(tri.a, tri.b, tri.c);
            if a.y == c.y {
                assert(collinear(a, b, c)) by (nonlinear_arith)
                    requires
                        a.y == b.y,
                        b.y == c.y,
                        collinear(a, b, c) == ((b.x - a.x) * (c.y - a.y) - (b.y - a.y) * (c.x - a.x)
                            == 0),
                ;
            }
            lemma_edge_crossing(a, c, b.y as int);
        }
        let line_hb = Line::horizontal(b.y);
        let line_ac = Line::from_points(a, c);
        let split_point = line_hb.intersect(line_ac);
        let horizontal_segment = HorizontalSegment::from_points(b, split_point);
        let ghost width = self@.width as int;
        let ghost height = self@.height as int;
        let ghost span = horizontal_segment@;
        let ghost top = if a.y != b.y {
            glued_pixels(span, a, width, height)
        } else {
            Seq::empty()
        };
        let ghost bottom = if c.y != b.y {
            glued_pixels(span, c, width, height)
        } else {
            Seq::empty()
        };

        if let Some(glued_top) = GluedTriangle::try_new(horizontal_segment, a) {
            self.fill_glued_triangle(glued_top, color_func);
        }
        assert((self@, color_func.state()) == paint::<F>(
            old(self)@,
            old(color_func).state(),
            top,
        ));
        proof {
            lemma_paint_keeps_shape::<F>(old(self)@, old(color_func).state(), top);
        }
        if let Some(glued_bottom) = GluedTriangle::try_new(horizontal_segment, c) {
            self.fill_glued_triangle(glued_bottom, color_func);
        }
        proof {
            lemma_paint_concat::<F>(old(self)@, old(color_func).state(), top, bottom);
        }
    }

    /// Fills a glued triangle: asks the filler for the colour of every pixel
    /// that the triangle covers, in the order of `glued_pixels`, and sets each
    /// pixel for which the filler gives a colour.
    pub fn fill_glued_triangle<F: ColorFunc>(
        &mut self,
        glued_tri: GluedTriangle,
        color_func: &mut F,
    )
        requires
            glued_tri.valid(),
        ensures
            (final(self)@, final(color_func).state()) == paint::<F>(
                old(self)@,
                old(color_func).state(),
                glued_pixels(
                    glued_tri.horizontal_segment@,
                    glued_tri.free_point,
                    old(self)@.width as int,
                    old(self)@.height as int,
                ),
            ),
    {
        let apex = glued_tri.free_point;
        let mut min = glued_tri.horizontal_segment.y();
        let mut max = apex.y;
        if min > max {
            let t = min;
            min = max;
            max = t;
        }
        let left_end = glued_tri.horizontal_segment.left();
        let right_end = glued_tri.horizontal_segment.right();
        let left_line = Line::from_points(left_end, apex);
        let right_line = Line::from_points(right_end, apex);

        let ghost span = glued_tri.horizontal_segment@;
        let ghost width = self@.width as int;
        let ghost height = self@.height as int;
        let ghost first = first_row(span, apex);
        let ghost last = last_row(span, apex, height);

        let last_y: i64 = if (max as i64) <= self.height as i64 - 1 {
            max as i64
        } else {
            self.height as i64 - 1
        };
        let mut y: i64 = if min >= 0 {
            min as i64
        } else {
            0
        };
        while y <= last_y
            invariant
                glued_tri.valid(),
                span == glued_tri.horizontal_segment@,
                apex == glued_tri.free_point,
                left_end == span.left,
                right_end == span.right(),
                left_line@ == through(left_end, apex),
                right_line@ == through(right_end, apex),
                width == old(self)@.width,
                height == old(self)@.height,
                self@.width == width,
                self@.height == height,
                first == first_row(span, apex),
                last == last_row(span, apex, height),
                last_y == last,
                first <= y,
                y <= last + 1 || y == first,
                (self@, color_func.state()) == paint::<F>(
                    old(self)@,
                    old(color_func).state(),
                    rows(span, apex, width, first, y - 1),
                ),
            decreases last_y - y + 1,
        {
            proof {
                lemma_edge_crossing(left_end, apex, y as int);
                lemma_edge_crossing(right_end, apex, y as int);
            }
            let horizontal_line = Line::horizontal(y as i32);
            let left_isect = horizontal_line.intersect(left_line);
            let right_isect = horizontal_line.intersect(right_line);

            let ghost done = rows(span, apex, width, first, y - 1);
            let ghost this_row = row(span, apex, width, y as int);
            let ghost start = row_start(span, apex, y as int);
            let end_x: i64 = if (right_isect.x as i64) <= self.width as i64 - 1 {
                right_isect.x as i64
            } else {
                self.width as i64 - 1
            };
            let mut x: i64 = if left_isect.x >= 0 {
                left_isect.x as i64
            } else {
                0
            };
            assert(done + this_row.take(0) =~= done);
            while x <= end_x
                invariant
                    width == old(self)@.width,
                    height == old(self)@.height,
                    self@.width == width,
                    self@.height == height,
                    0 <= y < height,
                    y <= i32::MAX,
                    this_row == row(span, apex, width, y as int),
                    start == row_start(span, apex, y as int),
                    end_x == row_end(span, apex, width, y as int),
                    0 <= start <= x,
                    x - start <= this_row.len(),
                    end_x < width,
                    end_x <= i32::MAX,
                    (self@, color_func.state()) == paint::<F>(
                        old(self)@,
                        old(color_func).state(),
                        done + this_row.take(x - start),
                    ),
                decreases end_x - x + 1,
            {
                let point = Point { x: x as i32, y: y as i32 };
                let ghost before = done + this_row.take(x - start);
                assert(this_row[x - start] == point);
                assert((done + this_row.take(x - start + 1)).drop_last() =~= before);
                assert((done + this_row.take(x - start + 1)).last() == point);
                if let Some(color) = color_func.color_at(point) {
                    self.set(x as u32, y as u32, color);
                }
                x = x + 1;
            }
            assert(this_row.take(x - start) =~= this_row);
            y = y + 1;
        }
    }
}

/// Something that draws itself into a raster.
pub trait Rasterize {
    /// Draws `self` into the raster.
    fn rasterize<'a>(&self, rasterizer: &mut Rasterizer<'a>);
}

} // verus!
