//! The shape primitives.

pub mod circle;
pub mod rectangle;
