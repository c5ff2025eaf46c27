//! Points and offsets in the plane.

use vstd::prelude::*;
use crate::scalar::Scalar;

verus! {

/// An ordered pair of numbers: a point of the plane, or an offset in it.
#[derive(Clone, Copy, Debug, PartialEq, Eq, Structural)]
pub struct Vector2 {
    pub x: Scalar,
    pub y: Scalar,
}

impl Vector2 {
    /// The point at the origin, both coordinates positive zero.
    pub open spec fn spec_origin() -> Vector2 {
        Vector2 { x: Scalar::spec_zero(), y: Scalar::spec_zero() }
    }

    /// Whether neither coordinate is a NaN.
    pub open spec fn defined(self) -> bool {
        !self.x.nan() && !self.y.nan()
    }

    /// Whether both coordinates are finite numbers.
    pub open spec fn finite(self) -> bool {
        self.x.finite() && self.y.finite()
    }

    /// Coordinate by coordinate the same numbers.
    pub open spec fn same_point(self, other: Vector2) -> bool {
        self.x.same_number(other.x) && self.y.same_number(other.y)
    }

    /// The point a quarter turn further, counter-clockwise about the
    /// origin: `(x, y)` goes to `(-y, x)`.
    pub open spec fn spec_quarter_turn(self) -> Vector2 {
        Vector2 { x: self.y.spec_neg(), y: self.x }
    }

    pub fn new(x: Scalar, y: Scalar) -> (r: Vector2)
        ensures
            r.x == x,
            r.y == y,
    {
        Vector2 { x, y }
    }

    pub fn origin() -> (r: Vector2)
        ensures
            r == Vector2::spec_origin(),
    {
        Vector2 { x: Scalar::zero(), y: Scalar::zero() }
    }

    /// Turns the point by a right angle, counter-clockwise about the origin.
    /// Only a sign bit changes: the turn is exact.
    pub fn quarter_turn(self) -> (r: Vector2)
        ensures
            r == self.spec_quarter_turn(),
    {
        Vector2 { x: self.y.neg(), y: self.x }
    }

    /// Whether both coordinates are the same numbers as those of `other`.
    pub fn eq_point(self, other: Vector2) -> (r: bool)
        ensures
            r == self.same_point(other),
    {
        self.x.eq_number(other.x) && self.y.eq_number(other.y)
    }
}

/// Four quarter turns are a full turn: every point is back where it was,
/// pattern for pattern.
pub proof fn lemma_full_turn(point: Vector2)
    ensures
        point.spec_quarter_turn().spec_quarter_turn().spec_quarter_turn().spec_quarter_turn()
            == point,
        point.spec_quarter_turn().spec_quarter_turn() == (Vector2 {
            x: point.x.spec_neg(),
            y: point.y.spec_neg(),
        }),
{
}

} // verus!
