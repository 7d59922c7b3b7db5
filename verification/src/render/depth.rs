//! The depth buffer: for every pixel the distance of the nearest surface drawn
//! so far, and the filler decoration that lets only nearer surfaces through.

use crate::geometry::point::Point;
use crate::render::color::{ColorFunc, PointDepth, RGB};
use vstd::prelude::*;

verus! {

/// What a depth buffer is: a grid of distances, row after row.
pub struct DepthView {
    pub cells: Seq<u32>,
    pub width: nat,
    pub height: nat,
}

impl DepthView {
    /// Whether the grid holds one distance for each pixel.
    pub open spec fn well_formed(self) -> bool {
        self.cells.len() == self.width * self.height
    }

    /// Whether the coordinates name a pixel of the grid.
    pub open spec fn in_bounds(self, x: int, y: int) -> bool {
        0 <= x < self.width && 0 <= y < self.height
    }

    /// The place of a pixel's distance in `cells`.
    pub open spec fn index(self, x: int, y: int) -> int {
        y * self.width + x
    }

    /// The distance recorded for a pixel.
    pub open spec fn nearest(self, x: int, y: int) -> u32 {
        self.cells[self.index(x, y)]
    }

    /// The coordinates of a point as a pixel of the grid, if it is one.
    pub open spec fn locate(self, point: Point) -> Option<(u32, u32)> {
        if self.in_bounds(point.x as int, point.y as int) {
            Some((point.x as u32, point.y as u32))
        } else {
            None
        }
    }

    /// Whether a surface at the given distance is nearer than all that was
    /// recorded for the pixel. Nothing out of bounds is ever accepted.
    pub open spec fn accepts(self, x: int, y: int, value: u32) -> bool {
        self.in_bounds(x, y) && value < self.nearest(x, y)
    }

    /// The grid after a surface at the given distance was offered for the
    /// pixel: it holds the new distance where that was accepted, and is
    /// unchanged where it was not.
    pub open spec fn record(self, x: int, y: int, value: u32) -> DepthView {
        if self.accepts(x, y, value) {
            DepthView { cells: self.cells.update(self.index(x, y), value), ..self }
        } else {
            self
        }
    }

    /// The grid after surfaces at the given distances were offered for one
    /// pixel, one after another.
    pub open spec fn record_all(self, x: int, y: int, values: Seq<u32>) -> DepthView
        decreases values.len(),
    {
        if values.len() == 0 {
            self
        } else {
            self.record_all(x, y, values.drop_last()).record(x, y, values.last())
        }
    }
}

/// The place of a pixel in bounds lies within the grid.
pub proof fn lemma_index_in_grid(grid: DepthView, x: int, y: int)
    requires
        grid.well_formed(),
        grid.in_bounds(x, y),
    ensures
        0 <= grid.index(x, y) < grid.cells.len(),
{
    assert(y * grid.width + x < grid.width * grid.height) by (nonlinear_arith)
        requires
            0 <= x < grid.width,
            0 <= y < grid.height,
    ;
    assert(0 <= y * grid.width) by (nonlinear_arith)
        requires
            0 <= y,
            0 <= grid.width,
    ;
}

/// Whether the distances descend strictly from each to the next.
pub open spec fn descending(values: Seq<u32>) -> bool {
    forall|i: int, j: int| 0 <= i < j < values.len() ==> values[j] < values[i]
}

/// After surfaces at strictly descending distances, the first of them nearer
/// than what the pixel held, were offered for one pixel in bounds, the pixel
/// holds the last of the distances.
proof fn lemma_descending_updates_recorded(grid: DepthView, x: int, y: int, values: Seq<u32>)
    requires
        grid.well_formed(),
        grid.in_bounds(x, y),
        values.len() > 0,
        values[0] < grid.nearest(x, y),
        descending(values),
    ensures
        grid.record_all(x, y, values.drop_last()).accepts(x, y, values.last()),
        grid.record_all(x, y, values).nearest(x, y) == values.last(),
        grid.record_all(x, y, values).well_formed(),
        grid.record_all(x, y, values).width == grid.width,
        grid.record_all(x, y, values).height == grid.height,
    decreases values.len(),
{
    lemma_index_in_grid(grid, x, y);
    let earlier = values.drop_last();
    if earlier.len() == 0 {
        assert(grid.record_all(x, y, earlier) == grid);
    } else {
        lemma_descending_updates_recorded(grid, x, y, earlier);
        assert(earlier.last() == values[values.len() - 2]);
    }
}

/// Surfaces offered for one pixel in bounds at strictly descending distances,
/// the first of them nearer than what the pixel holds, are accepted one and
/// all: each is nearer than what the pixel holds after those before it.
pub proof fn lemma_descending_updates_accepted(grid: DepthView, x: int, y: int, values: Seq<u32>)
    requires
        grid.well_formed(),
        grid.in_bounds(x, y),
        values.len() > 0,
        values[0] < grid.nearest(x, y),
        descending(values),
    ensures
        forall|i: int|
            0 <= i < values.len() ==> #[trigger] grid.record_all(x, y, values.take(i)).accepts(
                x,
                y,
                values[i],
            ),
{
    assert forall|i: int| 0 <= i < values.len() implies #[trigger] grid.record_all(
        x,
        y,
        values.take(i),
    ).accepts(x, y, values[i]) by {
        let upto = values.take(i + 1);
        assert(upto.drop_last() == values.take(i));
        lemma_descending_updates_recorded(grid, x, y, upto);
    }
}

/// A surface that is not nearer than what the pixel holds is not accepted, and
/// nothing is accepted out of bounds; either way the grid stays as it is.
pub proof fn lemma_update_refused(grid: DepthView, x: int, y: int, value: u32)
    requires
        !grid.in_bounds(x, y) || value >= grid.nearest(x, y),
    ensures
        !grid.accepts(x, y, value),
        grid.record(x, y, value) == grid,
{
}

/// Offering a surface never makes a pixel farther than it was, and changes no
/// pixel but the one that the surface was offered for.
pub proof fn lemma_record_never_farther(grid: DepthView, x: int, y: int, value: u32, i: int)
    requires
        grid.well_formed(),
        0 <= i < grid.cells.len(),
    ensures
        grid.record(x, y, value).cells.len() == grid.cells.len(),
        grid.record(x, y, value).cells[i] <= grid.cells[i],
        i != grid.index(x, y) ==> grid.record(x, y, value).cells[i] == grid.cells[i],
{
    if grid.in_bounds(x, y) {
        lemma_index_in_grid(grid, x, y);
    }
}

/// The distance of the nearest surface drawn so far at every pixel of a grid
/// of `width` by `height` pixels. Distances are unsigned integers that grow
/// with the distance; a pixel at which nothing was drawn holds `u32::MAX`.
pub struct DepthBuffer {
    depth_buffer: Vec<u32>,
    width: u32,
    height: u32,
}

impl View for DepthBuffer {
    type V = DepthView;

    closed spec fn view(&self) -> DepthView {
        DepthView {
            cells: self.depth_buffer@,
            width: self.width as nat,
            height: self.height as nat,
        }
    }
}

impl DepthBuffer {
    /// The buffer holds one distance for each pixel.
    #[verifier::type_invariant]
    spec fn one_cell_per_pixel(self) -> bool {
        self.depth_buffer@.len() == self.width * self.height
    }

    /// A buffer in which nothing is recorded yet.
    pub fn new(width: u32, height: u32) -> (buffer: DepthBuffer)
        requires
            width * height <= usize::MAX,
        ensures
            buffer@.well_formed(),
            buffer@.width == width,
            buffer@.height == height,
            forall|i: int| 0 <= i < buffer@.cells.len() ==> buffer@.cells[i] == u32::MAX,
    {
        let buffer_size = width as usize * height as usize;
        let depth_buffer = vec![u32::MAX; buffer_size];
        DepthBuffer { depth_buffer, width, height }
    }

    /// The coordinates of a point as a pixel of the buffer, or `None` where
    /// the point lies outside.
    pub fn try_coords_from_point(&self, point: Point) -> (r: Option<(u32, u32)>)
        ensures
            r == self@.locate(point),
    {
        if point.x < 0 || point.y < 0 || self.index_at_checked(
            point.x as u32,
            point.y as u32,
        ).is_none() {
            None
        } else {
            Some((point.x as u32, point.y as u32))
        }
    }

    /// Offers a surface at distance `value` for the pixel: records it and
    /// returns `true` where the pixel is in bounds and the surface is nearer
    /// than all that was recorded there, and else changes nothing.
    pub fn try_update(&mut self, x: u32, y: u32, value: u32) -> (accepted: bool)
        ensures
            accepted == old(self)@.accepts(x as int, y as int, value),
            final(self)@ == old(self)@.record(x as int, y as int, value),
            final(self)@.well_formed(),
    {
        proof {
            use_type_invariant(&*self);
        }
        if let Some(index) = self.index_at_checked(x, y) {
            if value < self.depth_buffer[index] {
                self.depth_buffer[index] = value;
                return true;
            }
        }
        false
    }

    /// The place of a pixel in bounds among the distances.
    fn index_at(&self, x: u32, y: u32) -> (index: usize)
        requires
            self@.in_bounds(x as int, y as int),
        ensures
            index == self@.index(x as int, y as int),
            index < self@.cells.len(),
    {
        proof {
            use_type_invariant(self);
            lemma_index_in_grid(self@, x as int, y as int);
            assert(self.depth_buffer@.len() == self.depth_buffer.len());
            assert(0 <= y * self.width) by (nonlinear_arith)
                requires
                    0 <= y,
                    0 <= self.width,
            ;
        }
        let x = x as usize;
        let y = y as usize;
        y * self.width as usize + x
    }

    /// The place of a pixel among the distances, or `None` out of bounds.
    fn index_at_checked(&self, x: u32, y: u32) -> (r: Option<usize>)
        ensures
            r.is_some() == self@.in_bounds(x as int, y as int),
            r matches Some(index) ==> index == self@.index(x as int, y as int) && index
                < self@.cells.len(),
    {
        if x < self.width && y < self.height {
            Some(self.index_at(x, y))
        } else {
            None
        }
    }
}

/// A filler behind the depth test of a borrowed depth buffer: a pixel is
/// coloured only where the inner filler wants it drawn and its surface is
/// nearer than all that was drawn there before.
pub struct DepthBufferProxy<'a, F> {
    pub color_func: F,
    pub depth_buffer: &'a mut DepthBuffer,
}

impl<'a, F: ColorFunc + PointDepth> DepthBufferProxy<'a, F> {
    /// The filler `color_func` behind a depth test against `depth_buffer`.
    pub fn new(color_func: F, depth_buffer: &'a mut DepthBuffer) -> (proxy: Self)
        ensures
            proxy.color_func == color_func,
            *proxy.depth_buffer == *old(depth_buffer),
            *final(proxy.depth_buffer) == *final(depth_buffer),
    {
        DepthBufferProxy { color_func, depth_buffer }
    }

    /// Whether a pixel passes the depth test: it lies within the buffer, the
    /// inner filler wants it drawn, and its surface is nearer than all that
    /// was recorded there.
    pub open spec fn passes(state: (F::State, DepthView), point: Point) -> bool {
        &&& state.1.in_bounds(point.x as int, point.y as int)
        &&& F::draws(state.0, point)
        &&& state.1.accepts(point.x as int, point.y as int, F::depth_in(state.0, point))
    }

    /// A pixel that has passed the depth test does not pass it again at once:
    /// a filler whose distance at the pixel stays what it was colours the
    /// pixel once, however often the pixel is visited in a row.
    pub proof fn lemma_second_visit_is_skipped(state: (F::State, DepthView), point: Point)
        requires
            state.1.well_formed(),
            Self::passes(state, point),
            F::depth_in(F::state_after(state.0, point), point) == F::depth_in(state.0, point),
        ensures
            !Self::passes(Self::state_after(state, point), point),
            Self::color_in(Self::state_after(state, point), point) == None::<RGB>,
    {
        lemma_index_in_grid(state.1, point.x as int, point.y as int);
    }
}

impl<'a, F: ColorFunc + PointDepth> ColorFunc for DepthBufferProxy<'a, F> {
    type State = (F::State, DepthView);

    open spec fn state(&self) -> (F::State, DepthView) {
        (self.color_func.state(), self.depth_buffer@)
    }

    open spec fn draws(state: (F::State, DepthView), point: Point) -> bool {
        state.1.in_bounds(point.x as int, point.y as int) && F::draws(state.0, point)
    }

    open spec fn color_in(state: (F::State, DepthView), point: Point) -> Option<RGB> {
        if Self::passes(state, point) {
            F::color_in(state.0, point)
        } else {
            None
        }
    }

    open spec fn state_after(state: (F::State, DepthView), point: Point) -> (F::State, DepthView) {
        if Self::passes(state, point) {
            (
                F::state_after(state.0, point),
                state.1.record(point.x as int, point.y as int, F::depth_in(state.0, point)),
            )
        } else {
            state
        }
    }

    fn should_draw(&self, point: Point) -> (r: bool) {
        self.depth_buffer.try_coords_from_point(point).is_some() && self.color_func.should_draw(
            point,
        )
    }

    fn color_at(&mut self, point: Point) -> (color: Option<RGB>) {
        match self.depth_buffer.try_coords_from_point(point) {
            None => None,
            Some((x, y)) => {
                if !self.color_func.should_draw(point) {
                    return None;
                }
                let depth = self.color_func.depth_of(point);
                if self.depth_buffer.try_update(x, y, depth) {
                    self.color_func.color_at(point)
                } else {
                    None
                }
            },
        }
    }
}

} // verus!
