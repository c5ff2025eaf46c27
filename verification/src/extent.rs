//! The extremal reduction: the largest and the smallest of a run of numbers.

use vstd::prelude::*;
use crate::scalar::Scalar;

verus! {

/// The largest of the most negative finite number and the numbers of
/// `values`, taken from left to right; NaNs are passed over.
pub open spec fn fold_max(values: Seq<Scalar>) -> Scalar
    decreases values.len(),
{
    if values.len() == 0 {
        Scalar::spec_lowest()
    } else {
        fold_max(values.drop_last()).spec_max(values.last())
    }
}

/// The smallest of the largest finite number and the numbers of `values`,
/// taken from left to right; NaNs are passed over.
pub open spec fn fold_min(values: Seq<Scalar>) -> Scalar
    decreases values.len(),
{
    if values.len() == 0 {
        Scalar::spec_highest()
    } else {
        fold_min(values.drop_last()).spec_min(values.last())
    }
}

/// Whether some number of `values` is not a NaN.
pub open spec fn some_number(values: Seq<Scalar>) -> bool {
    exists|i: int| 0 <= i < values.len() && !(#[trigger] values[i]).nan()
}

/// `fold_max` is a number, no smaller than its starting value and than
/// any number of `values`, and it is that starting value or one of them.
pub proof fn lemma_fold_max_extremal(values: Seq<Scalar>)
    ensures
        !fold_max(values).nan(),
        fold_max(values).rank() >= Scalar::spec_lowest().rank(),
        forall|i: int|
            0 <= i < values.len() && !(#[trigger] values[i]).nan() ==> values[i].rank()
                <= fold_max(values).rank(),
        fold_max(values) == Scalar::spec_lowest() || exists|i: int|
            0 <= i < values.len() && fold_max(values) == #[trigger] values[i],
        !some_number(values) ==> fold_max(values) == Scalar::spec_lowest(),
    decreases values.len(),
{
    if values.len() > 0 {
        let front = values.drop_last();
        lemma_fold_max_extremal(front);
        assert forall|i: int| 0 <= i < values.len() && !(#[trigger] values[i]).nan() implies values[i].rank()
            <= fold_max(values).rank() by {
            if i < front.len() {
                assert(front[i] == values[i]);
            }
        }
        if fold_max(values) != Scalar::spec_lowest() {
            if fold_max(values) == fold_max(front) {
                let j = choose|j: int| 0 <= j < front.len() && fold_max(front) == #[trigger] front[j];
                assert(values[j] == front[j]);
            } else {
                assert(fold_max(values) == values[values.len() - 1]);
            }
        }
        if !some_number(values) {
            assert(values[values.len() - 1].nan());
            assert forall|i: int| 0 <= i < front.len() implies (#[trigger] front[i]).nan() by {
                assert(front[i] == values[i]);
            }
        }
    }
}

/// `fold_min` is a number, no larger than its starting value and than any
/// number of `values`, and it is that starting value or one of them.
pub proof fn lemma_fold_min_extremal(values: Seq<Scalar>)
    ensures
        !fold_min(values).nan(),
        fold_min(values).rank() <= Scalar::spec_highest().rank(),
        forall|i: int|
            0 <= i < values.len() && !(#[trigger] values[i]).nan() ==> fold_min(values).rank()
                <= values[i].rank(),
        fold_min(values) == Scalar::spec_highest() || exists|i: int|
            0 <= i < values.len() && fold_min(values) == #[trigger] values[i],
        !some_number(values) ==> fold_min(values) == Scalar::spec_highest(),
    decreases values.len(),
{
    if values.len() > 0 {
        let front = values.drop_last();
        lemma_fold_min_extremal(front);
        assert forall|i: int| 0 <= i < values.len() && !(#[trigger] values[i]).nan() implies fold_min(
            values,
        ).rank() <= values[i].rank() by {
            if i < front.len() {
                assert(front[i] == values[i]);
            }
        }
        if fold_min(values) != Scalar::spec_highest() {
            if fold_min(values) == fold_min(front) {
                let j = choose|j: int| 0 <= j < front.len() && fold_min(front) == #[trigger] front[j];
                assert(values[j] == front[j]);
            } else {
                assert(fold_min(values) == values[values.len() - 1]);
            }
        }
        if !some_number(values) {
            assert(values[values.len() - 1].nan());
            assert forall|i: int| 0 <= i < front.len() implies (#[trigger] front[i]).nan() by {
                assert(front[i] == values[i]);
            }
        }
    }
}

/// The smallest never lies above the largest as soon as one of the values
/// is a number; with none, the two starting values come back, the larger
/// one as the smallest.
pub proof fn lemma_fold_min_at_most_fold_max(values: Seq<Scalar>)
    ensures
        fold_min(values).at_most(fold_max(values)) <==> some_number(values),
{
    lemma_fold_max_extremal(values);
    lemma_fold_min_extremal(values);
    if some_number(values) {
        let i = choose|i: int| 0 <= i < values.len() && !(#[trigger] values[i]).nan();
        assert(fold_min(values).rank() <= values[i].rank());
        assert(values[i].rank() <= fold_max(values).rank());
    }
}

/// Among finite values, at least one of them, the largest and the smallest
/// are each the same number as one of the values.
pub proof fn lemma_fold_attained(values: Seq<Scalar>)
    requires
        values.len() > 0,
        forall|i: int| 0 <= i < values.len() ==> (#[trigger] values[i]).finite(),
    ensures
        exists|i: int|
            0 <= i < values.len() && fold_max(values).same_number(#[trigger] values[i]),
        exists|i: int|
            0 <= i < values.len() && fold_min(values).same_number(#[trigger] values[i]),
{
    lemma_fold_max_extremal(values);
    lemma_fold_min_extremal(values);
    assert(values[0].finite());
    if fold_max(values) == Scalar::spec_lowest() {
        assert(fold_max(values).same_number(values[0]));
    } else {
        let i = choose|i: int| 0 <= i < values.len() && fold_max(values) == #[trigger] values[i];
        assert(fold_max(values).same_number(values[i]));
    }
    if fold_min(values) == Scalar::spec_highest() {
        assert(fold_min(values).same_number(values[0]));
    } else {
        let i = choose|i: int| 0 <= i < values.len() && fold_min(values) == #[trigger] values[i];
        assert(fold_min(values).same_number(values[i]));
    }
}

/// Negation turns the largest into the smallest: the smallest of the
/// negated values is the negated largest, and the other way round.
pub proof fn lemma_fold_negated(values: Seq<Scalar>)
    ensures
        fold_min(values.map_values(|v: Scalar| v.spec_neg())) == fold_max(values).spec_neg(),
        fold_max(values.map_values(|v: Scalar| v.spec_neg())) == fold_min(values).spec_neg(),
    decreases values.len(),
{
    let negated = values.map_values(|v: Scalar| v.spec_neg());
    if values.len() > 0 {
        lemma_fold_negated(values.drop_last());
        assert(negated.drop_last() =~= values.drop_last().map_values(|v: Scalar| v.spec_neg()));
        assert(negated.last() == values.last().spec_neg());
    }
}

/// The reduction of four values that start with the larger and end with
/// the smaller of two numbers, and hold nothing else, gives back that pair:
/// the larger one pattern for pattern, the smaller one as a number (the same
/// pattern too, but for the sign of a zero). Both have to lie within the
/// finite range or at its far side, since the reduction starts from the
/// range's ends.
pub proof fn lemma_fold_pair(values: Seq<Scalar>, lo: Scalar, hi: Scalar)
    requires
        values.len() == 4,
        values[0] == hi,
        values[1] == lo || values[1] == hi,
        values[2] == hi || values[2] == lo,
        values[3] == lo,
        lo.at_most(hi),
        Scalar::spec_lowest().at_most(hi),
        lo.at_most(Scalar::spec_highest()),
    ensures
        fold_max(values) == hi,
        fold_min(values).same_number(lo),
        lo.rank() != 0 ==> fold_min(values) == lo,
{
    let v3 = values.drop_last();
    let v2 = v3.drop_last();
    let v1 = v2.drop_last();
    let v0 = v1.drop_last();
    assert(v0.len() == 0);
    assert(fold_max(v0) == Scalar::spec_lowest());
    assert(fold_min(v0) == Scalar::spec_highest());
    assert(v1.last() == values[0]);
    assert(v2.last() == values[1]);
    assert(v3.last() == values[2]);
    assert(fold_max(v1) == hi);
    assert(fold_max(v2) == hi);
    assert(fold_max(v3) == hi);
    assert(fold_min(v1).rank() >= lo.rank() && !fold_min(v1).nan());
    assert(fold_min(v2).rank() >= lo.rank() && !fold_min(v2).nan());
    assert(fold_min(v3).rank() >= lo.rank() && !fold_min(v3).nan());
}

} // verus!
