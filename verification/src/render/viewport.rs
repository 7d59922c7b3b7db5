//! The size of the raster that the screen-agnostic coordinates are mapped to.

use vstd::prelude::*;

verus! {

/// A raster of `width` by `height` pixels.
#[derive(Debug, Clone, Copy, Eq, PartialEq)]
pub struct Viewport {
    pub width: u32,
    pub height: u32,
}

impl Viewport {
    /// The viewport of the given size.
    pub fn new(width: u32, height: u32) -> (viewport: Viewport)
        ensures
            viewport.width == width,
            viewport.height == height,
    {
        Viewport { width, height }
    }
}

} // verus!
