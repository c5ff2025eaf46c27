//! Circles.

use vstd::prelude::*;
use crate::scalar::Scalar;
use crate::transform2d::Transform2D;

verus! {

/// A circle of a given radius about the centre of its pose. The angle of
/// the pose does not matter to a circle.
#[derive(Clone, Copy, Debug, PartialEq, Eq, Structural)]
pub struct Circle {
    pub radius: Scalar,
    pub transform: Transform2D,
}

impl Circle {
    /// A proper circle has a radius greater than zero.
    pub open spec fn valid(self) -> bool {
        Scalar::spec_zero().below(self.radius)
    }

    /// Any radius is accepted, proper or not.
    pub fn new(radius: Scalar, transform: Transform2D) -> (r: Circle)
        ensures
            r.radius == radius,
            r.transform == transform,
    {
        Circle { radius, transform }
    }

    pub fn is_valid(&self) -> (r: bool)
        ensures
            r == self.valid(),
    {
        self.radius.is_positive()
    }
}

} // verus!
