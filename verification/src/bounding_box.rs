//! Axis-aligned bounding boxes, and the reduction of a point set to one.

use vstd::prelude::*;
use crate::extent::fold_max;
use crate::extent::fold_min;
use crate::extent::some_number;
use crate::extent::lemma_fold_attained;
use crate::extent::lemma_fold_max_extremal;
use crate::extent::lemma_fold_min_at_most_fold_max;
use crate::extent::lemma_fold_min_extremal;
use crate::extent::lemma_fold_negated;
use crate::extent::lemma_fold_pair;
use crate::scalar::Scalar;
use crate::vector2::Vector2;
use crate::vector2::lemma_full_turn;

verus! {

/// The first coordinates of `points`, in order.
pub open spec fn xs(points: Seq<Vector2>) -> Seq<Scalar> {
    Seq::new(points.len(), |i: int| points[i].x)
}

/// The second coordinates of `points`, in order.
pub open spec fn ys(points: Seq<Vector2>) -> Seq<Scalar> {
    Seq::new(points.len(), |i: int| points[i].y)
}

/// An axis-aligned box in world space, given by its two extremal corners.
#[derive(Clone, Copy, Debug, PartialEq, Eq, Structural)]
pub struct BoundingBox {
    pub min: Vector2,
    pub max: Vector2,
}

impl BoundingBox {
    /// The box a quarter turn further, counter-clockwise about the origin:
    /// its corners are those of `self` with `(x, y)` sent to `(-y, x)`, put
    /// back in order.
    pub open spec fn spec_quarter_turn(self) -> BoundingBox {
        BoundingBox {
            min: Vector2 { x: self.max.y.spec_neg(), y: self.min.x },
            max: Vector2 { x: self.min.y.spec_neg(), y: self.max.x },
        }
    }

    /// The four corners of the box, in the order top left, top right,
    /// bottom left, bottom right, where left and top are the coordinates of
    /// `max`.
    pub open spec fn spec_corners(self) -> Seq<Vector2> {
        seq![
            Vector2 { x: self.max.x, y: self.max.y },
            Vector2 { x: self.min.x, y: self.max.y },
            Vector2 { x: self.max.x, y: self.min.y },
            Vector2 { x: self.min.x, y: self.min.y },
        ]
    }

    /// The box that the reduction of `points` gives, coordinate by
    /// coordinate.
    pub open spec fn spec_enclosing(points: Seq<Vector2>) -> BoundingBox {
        BoundingBox {
            min: Vector2 { x: fold_min(xs(points)), y: fold_min(ys(points)) },
            max: Vector2 { x: fold_max(xs(points)), y: fold_max(ys(points)) },
        }
    }

    /// Whether the corners are in order: `min` at or below `max` in both
    /// coordinates, none of the four a NaN.
    pub open spec fn ordered(self) -> bool {
        self.min.x.at_most(self.max.x) && self.min.y.at_most(self.max.y)
    }

    /// Whether `point` lies in the box, its border included.
    pub open spec fn holds(self, point: Vector2) -> bool {
        &&& self.min.x.at_most(point.x)
        &&& point.x.at_most(self.max.x)
        &&& self.min.y.at_most(point.y)
        &&& point.y.at_most(self.max.y)
    }

    pub fn new(min: Vector2, max: Vector2) -> (r: BoundingBox)
        ensures
            r.min == min,
            r.max == max,
    {
        BoundingBox { min, max }
    }

    /// Lists the four corners of the box: top left, top right, bottom left,
    /// bottom right, where left and top are the coordinates of `max`.
    pub fn corners(&self) -> (r: [Vector2; 4])
        ensures
            r@ == self.spec_corners(),
    {
        let r: [Vector2; 4] = [
            Vector2 { x: self.max.x, y: self.max.y },
            Vector2 { x: self.min.x, y: self.max.y },
            Vector2 { x: self.max.x, y: self.min.y },
            Vector2 { x: self.min.x, y: self.min.y },
        ];
        assert(r@ =~= self.spec_corners());
        r
    }

    pub fn is_ordered(&self) -> (r: bool)
        ensures
            r == self.ordered(),
    {
        self.min.x.le(self.max.x) && self.min.y.le(self.max.y)
    }

    pub fn contains(&self, point: Vector2) -> (r: bool)
        ensures
            r == self.holds(point),
    {
        self.min.x.le(point.x) && point.x.le(self.max.x) && self.min.y.le(point.y) && point.y.le(
            self.max.y,
        )
    }

    /// Reduces `points` to their box: in each coordinate the largest
    /// and the smallest number found, starting from the most negative finite
    /// number for the largest and from the largest finite number for the
    /// smallest. A NaN coordinate is passed over.
    ///
    /// The box is in order in a coordinate exactly when some point has a
    /// number there, and it holds every point that has two.
    pub fn enclosing(points: &[Vector2]) -> (r: BoundingBox)
        ensures
            r == BoundingBox::spec_enclosing(points@),
            r.min.defined() && r.max.defined(),
            r.min.x.at_most(r.max.x) <==> some_number(xs(points@)),
            r.min.y.at_most(r.max.y) <==> some_number(ys(points@)),
            forall|i: int|
                0 <= i < points@.len() && (#[trigger] points@[i]).defined() ==> r.holds(points@[i]),
    {
        let mut min_x: Scalar = Scalar::highest();
        let mut min_y: Scalar = Scalar::highest();
        let mut max_x: Scalar = Scalar::lowest();
        let mut max_y: Scalar = Scalar::lowest();
        let mut n: usize = 0;
        while n < points.len()
            invariant
                n <= points@.len(),
                min_x == fold_min(xs(points@).take(n as int)),
                min_y == fold_min(ys(points@).take(n as int)),
                max_x == fold_max(xs(points@).take(n as int)),
                max_y == fold_max(ys(points@).take(n as int)),
            decreases points@.len() - n,
        {
            let p: Vector2 = points[n];
            proof {
                let m = n as int;
                assert(xs(points@).take(m + 1).drop_last() =~= xs(points@).take(m));
                assert(ys(points@).take(m + 1).drop_last() =~= ys(points@).take(m));
                assert(xs(points@).take(m + 1).last() == p.x);
                assert(ys(points@).take(m + 1).last() == p.y);
            }
            min_x = min_x.min(p.x);
            min_y = min_y.min(p.y);
            max_x = max_x.max(p.x);
            max_y = max_y.max(p.y);
            n = n + 1;
        }
        proof {
            assert(xs(points@).take(n as int) =~= xs(points@));
            assert(ys(points@).take(n as int) =~= ys(points@));
            lemma_fold_min_at_most_fold_max(xs(points@));
            lemma_fold_min_at_most_fold_max(ys(points@));
            lemma_fold_max_extremal(xs(points@));
            lemma_fold_max_extremal(ys(points@));
            lemma_fold_min_extremal(xs(points@));
            lemma_fold_min_extremal(ys(points@));
            assert forall|i: int| 0 <= i < points@.len() && (#[trigger] points@[i]).defined() implies fold_min(
                xs(points@),
            ).at_most(points@[i].x) && points@[i].x.at_most(fold_max(xs(points@))) && fold_min(
                ys(points@),
            ).at_most(points@[i].y) && points@[i].y.at_most(fold_max(ys(points@))) by {
                assert(xs(points@)[i] == points@[i].x);
                assert(ys(points@)[i] == points@[i].y);
            }
        }
        BoundingBox { min: Vector2 { x: min_x, y: min_y }, max: Vector2 { x: max_x, y: max_y } }
    }
}

/// The box of a box's corners is the box: reduced, the four corners of a
/// box in order give its `max` back, pattern for pattern, and the numbers
/// of its `min` (the same pattern too, but for the sign of a zero). So an
/// upright rectangle is its own bounding box. Every coordinate has to lie
/// within the finite range or at its far side, since the reduction starts
/// from the range's ends.
pub proof fn lemma_enclosing_corners(bounds: BoundingBox)
    requires
        bounds.ordered(),
        Scalar::spec_lowest().at_most(bounds.max.x),
        Scalar::spec_lowest().at_most(bounds.max.y),
        bounds.min.x.at_most(Scalar::spec_highest()),
        bounds.min.y.at_most(Scalar::spec_highest()),
    ensures
        BoundingBox::spec_enclosing(bounds.spec_corners()).max == bounds.max,
        BoundingBox::spec_enclosing(bounds.spec_corners()).min.same_point(bounds.min),
        bounds.min.x.rank() != 0 && bounds.min.y.rank() != 0 ==> BoundingBox::spec_enclosing(
            bounds.spec_corners(),
        ) == bounds,
{
    let corners = bounds.spec_corners();
    lemma_fold_pair(xs(corners), bounds.min.x, bounds.max.x);
    lemma_fold_pair(ys(corners), bounds.min.y, bounds.max.y);
}

/// A quarter turn about the origin turns the box with the points: the box
/// of the turned points has the corners of the old one with `(x, y)` sent to
/// `(-y, x)`, the old largest `y` giving the new smallest `x`.
pub proof fn lemma_enclosing_quarter_turn(points: Seq<Vector2>)
    ensures
        BoundingBox::spec_enclosing(points.map_values(|p: Vector2| p.spec_quarter_turn()))
            == BoundingBox::spec_enclosing(points).spec_quarter_turn(),
{
    let turned = points.map_values(|p: Vector2| p.spec_quarter_turn());
    lemma_fold_negated(ys(points));
    assert(xs(turned) =~= ys(points).map_values(|v: Scalar| v.spec_neg()));
    assert(ys(turned) =~= xs(points));
}

/// A quarter turn swaps the sides of an upright rectangle: the box of the
/// turned corners of a box in order is as wide as that box was high, and as
/// high as it was wide. Its corners are, as numbers, `(-max.y, min.x)` and
/// `(-min.y, max.x)`.
pub proof fn lemma_enclosing_turned_corners(bounds: BoundingBox)
    requires
        bounds.ordered(),
        Scalar::spec_lowest().at_most(bounds.max.x),
        Scalar::spec_lowest().at_most(bounds.max.y),
        bounds.min.x.at_most(Scalar::spec_highest()),
        bounds.min.y.at_most(Scalar::spec_highest()),
    ensures
        BoundingBox::spec_enclosing(
            bounds.spec_corners().map_values(|p: Vector2| p.spec_quarter_turn()),
        ).min.same_point(bounds.spec_quarter_turn().min),
        BoundingBox::spec_enclosing(
            bounds.spec_corners().map_values(|p: Vector2| p.spec_quarter_turn()),
        ).max.same_point(bounds.spec_quarter_turn().max),
{
    lemma_enclosing_corners(bounds);
    lemma_enclosing_quarter_turn(bounds.spec_corners());
}

/// The reduction gives the smallest box that holds the points: it is in
/// order, and any other box that holds every one of the points holds its
/// two corners too. This is said of finite points, at least one of them.
pub proof fn lemma_enclosing_smallest(points: Seq<Vector2>, other: BoundingBox)
    requires
        points.len() > 0,
        forall|i: int| 0 <= i < points.len() ==> (#[trigger] points[i]).finite(),
        forall|i: int| 0 <= i < points.len() ==> other.holds(#[trigger] points[i]),
    ensures
        BoundingBox::spec_enclosing(points).ordered(),
        forall|i: int|
            0 <= i < points.len() ==> BoundingBox::spec_enclosing(points).holds(
                #[trigger] points[i],
            ),
        other.holds(BoundingBox::spec_enclosing(points).min),
        other.holds(BoundingBox::spec_enclosing(points).max),
{
    let x = xs(points);
    let y = ys(points);
    assert forall|i: int| 0 <= i < x.len() implies (#[trigger] x[i]).finite() by {
        assert(points[i].finite());
    }
    assert forall|i: int| 0 <= i < y.len() implies (#[trigger] y[i]).finite() by {
        assert(points[i].finite());
    }
    lemma_fold_attained(x);
    lemma_fold_attained(y);
    lemma_fold_max_extremal(x);
    lemma_fold_max_extremal(y);
    lemma_fold_min_extremal(x);
    lemma_fold_min_extremal(y);
    let ix = choose|i: int| 0 <= i < x.len() && fold_max(x).same_number(#[trigger] x[i]);
    let jx = choose|i: int| 0 <= i < x.len() && fold_min(x).same_number(#[trigger] x[i]);
    let iy = choose|i: int| 0 <= i < y.len() && fold_max(y).same_number(#[trigger] y[i]);
    let jy = choose|i: int| 0 <= i < y.len() && fold_min(y).same_number(#[trigger] y[i]);
    assert(other.holds(points[ix]) && other.holds(points[jx]));
    assert(other.holds(points[iy]) && other.holds(points[jy]));
    assert(x[ix] == points[ix].x && x[jx] == points[jx].x);
    assert(y[iy] == points[iy].y && y[jy] == points[jy].y);
    assert forall|i: int| 0 <= i < points.len() implies BoundingBox::spec_enclosing(points).holds(
        #[trigger] points[i],
    ) by {
        assert(points[i].finite());
        assert(x[i] == points[i].x);
        assert(y[i] == points[i].y);
    }
}

/// A full turn in four quarters gives every point back, and so the box.
pub proof fn lemma_enclosing_full_turn(points: Seq<Vector2>)
    ensures
        BoundingBox::spec_enclosing(
            points.map_values(
                |p: Vector2|
                    p.spec_quarter_turn().spec_quarter_turn().spec_quarter_turn().spec_quarter_turn(),
            ),
        ) == BoundingBox::spec_enclosing(points),
{
    let turned = points.map_values(
        |p: Vector2|
            p.spec_quarter_turn().spec_quarter_turn().spec_quarter_turn().spec_quarter_turn(),
    );
    assert forall|i: int| 0 <= i < points.len() implies turned[i] == points[i] by {
        lemma_full_turn(points[i]);
    }
    assert(turned =~= points);
}

} // verus!
