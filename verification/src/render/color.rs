//! Colours, and the fillers that choose the colour of each pixel.

use crate::geometry::point::Point;
use vstd::prelude::*;

verus! {

/// A colour; the fields stand in the order in which a pixel holds them.
#[derive(Debug, Copy, Clone, Eq, PartialEq, Structural)]
pub struct RGB {
    pub b: u8,
    pub g: u8,
    pub r: u8,
}

impl RGB {
    /// The colour with the given red, green and blue parts.
    pub fn new(r: u8, g: u8, b: u8) -> (color: RGB)
        ensures
            color.r == r,
            color.g == g,
            color.b == b,
    {
        RGB { r, g, b }
    }
}

/// A screen-space filler: it is asked pixel by pixel which colour to draw, may
/// answer that a pixel is to be skipped, and may change with every question.
///
/// A filler is deterministic: its answers and its next state are functions of
/// its state and of the pixel. An implementation says which functions they are
/// by `state`, `draws`, `color_in` and `state_after`, which stand for nothing
/// in particular until it does.
pub trait ColorFunc {
    /// What of the filler decides its answers.
    type State;

    /// The filler's present state.
    open spec fn state(&self) -> Self::State {
        arbitrary()
    }

    /// Whether a filler in this state wants the pixel drawn at all.
    open spec fn draws(state: Self::State, point: Point) -> bool {
        arbitrary()
    }

    /// The colour that a filler in this state gives the pixel, or `None` to
    /// skip it.
    open spec fn color_in(state: Self::State, point: Point) -> Option<RGB> {
        arbitrary()
    }

    /// The state in which the filler is after it was asked for the pixel's
    /// colour.
    open spec fn state_after(state: Self::State, point: Point) -> Self::State {
        arbitrary()
    }

    /// Whether the filler wants the pixel drawn at all.
    fn should_draw(&self, point: Point) -> (r: bool)
        ensures
            r == Self::draws(self.state(), point),
    ;

    /// The colour of the pixel, or `None` to skip it.
    fn color_at(&mut self, point: Point) -> (color: Option<RGB>)
        ensures
            color == Self::color_in(old(self).state(), point),
            final(self).state() == Self::state_after(old(self).state(), point),
    ;
}

/// A filler that knows how far from the eye the surface is that it draws at a
/// pixel. Distances are unsigned integers that grow with the distance.
pub trait PointDepth: ColorFunc {
    /// The distance of the surface at the pixel, for a filler in this state.
    open spec fn depth_in(state: Self::State, point: Point) -> u32 {
        arbitrary()
    }

    /// The distance of the surface at the pixel.
    fn depth_of(&self, point: Point) -> (depth: u32)
        ensures
            depth == Self::depth_in(self.state(), point),
    ;
}

/// Whether a function can be asked about every pixel and its answer is a
/// function of the pixel.
pub open spec fn answers_alike<F: Fn(Point) -> Option<RGB>>(f: F) -> bool {
    &&& forall|point: Point| call_requires(f, (point,))
    &&& forall|point: Point, first: Option<RGB>, second: Option<RGB>|
        call_ensures(f, (point,), first) && call_ensures(f, (point,), second) ==> first == second
}

/// A function from pixels to colours as a filler: it wants every pixel drawn
/// for which it gives a colour, and never changes.
pub struct FnFiller<F: Fn(Point) -> Option<RGB>> {
    f: F,
}

impl<F: Fn(Point) -> Option<RGB>> FnFiller<F> {
    /// The function can always be asked and answers alike.
    #[verifier::type_invariant]
    spec fn function_answers_alike(self) -> bool {
        answers_alike(self.f)
    }

    /// The function that the filler asks.
    pub closed spec fn function(self) -> F {
        self.f
    }

    /// The filler that asks `f`.
    pub fn new(f: F) -> (filler: Self)
        requires
            answers_alike(f),
        ensures
            filler.function() == f,
    {
        FnFiller { f }
    }
}

impl<F: Fn(Point) -> Option<RGB>> ColorFunc for FnFiller<F> {
    type State = F;

    closed spec fn state(&self) -> F {
        self.f
    }

    open spec fn draws(state: F, point: Point) -> bool {
        Self::color_in(state, point).is_some()
    }

    open spec fn color_in(state: F, point: Point) -> Option<RGB> {
        choose|color: Option<RGB>| call_ensures(state, (point,), color)
    }

    open spec fn state_after(state: F, point: Point) -> F {
        state
    }

    fn should_draw(&self, point: Point) -> (r: bool) {
        proof {
            use_type_invariant(self);
        }
        (self.f)(point).is_some()
    }

    fn color_at(&mut self, point: Point) -> (color: Option<RGB>) {
        proof {
            use_type_invariant(&*self);
        }
        (self.f)(point)
    }
}

} // verus!
