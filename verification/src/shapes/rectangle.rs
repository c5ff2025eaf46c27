//! Rectangles.

use vstd::prelude::*;
use crate::scalar::Scalar;
use crate::transform2d::Transform2D;

verus! {

/// A rectangle of a given width and height, centred on the centre of its
/// pose and turned about it by the pose's angle.
#[derive(Clone, Copy, Debug, PartialEq, Eq, Structural)]
pub struct Rectangle {
    pub width: Scalar,
    pub height: Scalar,
    pub transform: Transform2D,
}

impl Rectangle {
    /// A proper rectangle has a width and a height greater than zero.
    pub open spec fn valid(self) -> bool {
        Scalar::spec_zero().below(self.width) && Scalar::spec_zero().below(self.height)
    }

    /// Any width and height are accepted, proper or not.
    pub fn new(width: Scalar, height: Scalar, transform: Transform2D) -> (r: Rectangle)
        ensures
            r.width == width,
            r.height == height,
            r.transform == transform,
    {
        Rectangle { width, height, transform }
    }

    pub fn is_valid(&self) -> (r: bool)
        ensures
            r == self.valid(),
    {
        self.width.is_positive() && self.height.is_positive()
    }
}

} // verus!
