//! A small planar geometry kernel: rigid-body poses, circles, rectangles and
//! axis-aligned bounding boxes.
//!
//! Coordinates are IEEE-754 single-precision numbers, held by their bit
//! patterns. Everything here works on those patterns with integer
//! operations only: ordering, sign and the reduction of a point set to its
//! extremal corners are decided exactly, bit for bit.

pub mod bounding_box;
pub mod extent;
pub mod scalar;
pub mod shapes;
pub mod transform2d;
pub mod vector2;
