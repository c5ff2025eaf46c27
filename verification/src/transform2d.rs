//! Rigid-body poses.

use vstd::prelude::*;
use crate::scalar::Scalar;
use crate::vector2::Vector2;

verus! {

/// A rigid-body pose in world space: where a shape's centre lies, and the
/// angle in radians, counter-clockwise, by which the shape is turned about
/// that centre.
#[derive(Clone, Copy, Debug, PartialEq, Eq, Structural)]
pub struct Transform2D {
    pub translation: Vector2,
    pub rotation: Scalar,
}

impl Transform2D {
    /// The pose that moves nothing: centre at the origin, angle zero.
    pub open spec fn spec_identity() -> Transform2D {
        Transform2D { translation: Vector2::spec_origin(), rotation: Scalar::spec_zero() }
    }

    pub fn new(translation: Vector2, rotation: Scalar) -> (r: Transform2D)
        ensures
            r.translation == translation,
            r.rotation == rotation,
    {
        Transform2D { translation, rotation }
    }

    pub fn identity() -> (r: Transform2D)
        ensures
            r == Transform2D::spec_identity(),
    {
        Transform2D { translation: Vector2::origin(), rotation: Scalar::zero() }
    }
}

impl Default for Transform2D {
    fn default() -> (r: Transform2D)
        ensures
            r == Transform2D::spec_identity(),
    {
        Transform2D::identity()
    }
}

} // verus!
