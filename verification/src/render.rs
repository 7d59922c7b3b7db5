//! Filling triangles into a raster of pixels: colours and fillers, the depth
//! test, the scanline rasterizer, and the decisions of the frustum clipper and
//! of coordinate recovery.

pub mod clip;
pub mod color;
pub mod depth;
pub mod raster;
pub mod recover;
pub mod scanline;
pub mod viewport;

pub use clip::{classify, split_if_necessary, try_split_if_necessary, SegmentTranslatability};
pub use color::{ColorFunc, FnFiller, PointDepth, RGB};
pub use depth::{DepthBuffer, DepthBufferProxy, DepthView};
pub use raster::{RasterView, Rasterize, Rasterizer};
pub use recover::bilinear_untranslate;
pub use viewport::Viewport;
