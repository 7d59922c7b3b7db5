//! A software rasterizer for triangles under an angular camera: exact integer
//! geometry, scanline filling, nearest-surface depth testing, and the decisions
//! behind frustum clipping and coordinate recovery.

pub mod arith;
pub mod geometry;
pub mod linalg;
pub mod render;
pub mod with;
