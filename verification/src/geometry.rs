//! Exact integer geometry of the raster plane, and the plain containers that
//! carry points of space.

pub mod line;
pub mod point;
pub mod segment;
pub mod space;
pub mod triangle;

pub use line::{
    horizontal_at, lemma_from_points_symmetric, lemma_same_line_same_points,
    lemma_through_collinear, lemma_through_holds, lemma_through_measures, reduction, through,
    Coefficients, Line,
};
pub use point::{
    collinear, cross, lemma_collinear_symmetric, lemma_cross_sum, lemma_cross_symmetric,
    BasicPoint, BasicVector, Point,
};
pub use segment::{span_between, HorizontalSegment, Segment, Span};
pub use space::{BasicPoint3d, BasicVector3d};
pub use triangle::{
    by_x, by_y, computes, inside, lemma_sort3_sorted, rearranges, sort3, spans_triangle,
    BasicTriangle, GluedTriangle, LiesOn, Triangle, Triangular,
};
