//! Geometric core of a vector drawing: a closed set of shapes, their
//! axis-aligned bounding boxes, and queries over collections of shapes.
//!
//! Coordinates are integers: a point holds `i32` values, a box holds `i64`
//! values, so that every extent a shape can produce is representable.

pub mod canvas;
pub mod collision;
pub mod text;
pub mod image_export;
