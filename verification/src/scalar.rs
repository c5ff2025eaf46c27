//! Single-precision numbers as bit patterns, with their order.

use vstd::prelude::*;
use vstd::arithmetic::power2::pow2;
use vstd::arithmetic::power2::lemma_pow2_pos;
use vstd::arithmetic::power2::lemma_pow2_strictly_increases;
use vstd::arithmetic::power2::lemma_pow2_unfold;

verus! {

/// The sign bit of a binary32 pattern.
pub const SIGN_BIT: u32 = 0x8000_0000;

/// The pattern of positive infinity. A magnitude above it is not a number.
pub const INFINITY_BITS: u32 = 0x7F80_0000;

/// The pattern of the largest finite number.
pub const LARGEST_FINITE_BITS: u32 = 0x7F7F_FFFF;

/// The pattern of the most negative finite number.
pub const SMALLEST_FINITE_BITS: u32 = 0xFF7F_FFFF;

/// The number that a pattern without sign bit stands for, in units of
/// two to the power of -149, the smallest positive number. With a zero
/// exponent field the fraction counts those units; else the fraction, with
/// its hidden leading one, is doubled once for each step of the exponent
/// above one.
pub open spec fn magnitude_value(magnitude: int) -> int {
    if magnitude / 0x80_0000 == 0 {
        magnitude % 0x80_0000
    } else {
        (0x80_0000 + magnitude % 0x80_0000) * pow2((magnitude / 0x80_0000 - 1) as nat)
    }
}

/// A larger pattern stands for a larger number.
pub proof fn lemma_magnitude_value_increases(lower: int, upper: int)
    requires
        0 <= lower < upper,
    ensures
        0 <= magnitude_value(lower) < magnitude_value(upper),
{
    let e1 = lower / 0x80_0000;
    let f1 = lower % 0x80_0000;
    let e2 = upper / 0x80_0000;
    let f2 = upper % 0x80_0000;
    assert(e1 <= e2);
    if e1 == 0 {
        if e2 != 0 {
            let high_power = pow2((e2 - 1) as nat);
            lemma_pow2_pos((e2 - 1) as nat);
            assert((0x80_0000 + f2) * high_power >= 0x80_0000) by (nonlinear_arith)
                requires
                    f2 >= 0,
                    high_power >= 1,
            ;
        }
    } else if e1 == e2 {
        let power = pow2((e1 - 1) as nat);
        lemma_pow2_pos((e1 - 1) as nat);
        assert(0 <= (0x80_0000 + f1) * power < (0x80_0000 + f2) * power) by (nonlinear_arith)
            requires
                0 <= f1 < f2,
                power > 0,
        ;
    } else {
        let low_power = pow2((e1 - 1) as nat);
        let doubled = pow2(e1 as nat);
        let high_power = pow2((e2 - 1) as nat);
        lemma_pow2_pos((e1 - 1) as nat);
        lemma_pow2_unfold(e1 as nat);
        if e1 < e2 - 1 {
            lemma_pow2_strictly_increases(e1 as nat, (e2 - 1) as nat);
        }
        assert(0 <= (0x80_0000 + f1) * low_power < (0x80_0000 + f2) * high_power) by (nonlinear_arith)
            requires
                0 <= f1 < 0x80_0000,
                f2 >= 0,
                low_power > 0,
                doubled == 2 * low_power,
                doubled <= high_power,
        ;
    }
}

/// Rank and number go together: of any two patterns, the one of lower rank
/// stands for the lower number, and equal ranks for equal numbers.
pub proof fn lemma_rank_orders_values(a: Scalar, b: Scalar)
    ensures
        a.rank() < b.rank() <==> a.scaled_value() < b.scaled_value(),
        a.rank() == b.rank() <==> a.scaled_value() == b.scaled_value(),
{
    let ma = a.magnitude();
    let mb = b.magnitude();
    assert(magnitude_value(0) == 0);
    if ma > 0 {
        lemma_magnitude_value_increases(0, ma);
    }
    if mb > 0 {
        lemma_magnitude_value_increases(0, mb);
    }
    if ma < mb {
        lemma_magnitude_value_increases(ma, mb);
    }
    if mb < ma {
        lemma_magnitude_value_increases(mb, ma);
    }
}

/// A single-precision number, held as its IEEE-754 binary32 bit pattern.
#[derive(Clone, Copy, Debug, PartialEq, Eq, Structural)]
pub struct Scalar {
    pub bits: u32,
}

impl Scalar {
    /// Whether the sign bit is set.
    pub open spec fn negative(self) -> bool {
        self.bits >= SIGN_BIT
    }

    /// The pattern without its sign bit: exponent and fraction.
    pub open spec fn magnitude(self) -> int {
        if self.bits >= SIGN_BIT {
            self.bits - SIGN_BIT
        } else {
            self.bits as int
        }
    }

    /// Whether the pattern is a NaN.
    pub open spec fn nan(self) -> bool {
        self.magnitude() > INFINITY_BITS
    }

    /// Whether the pattern is neither a NaN nor an infinity.
    pub open spec fn finite(self) -> bool {
        self.magnitude() < INFINITY_BITS
    }

    /// The place of the number on the number line: numbers that are not NaN
    /// compare as their ranks do. Both zeros have rank 0.
    pub open spec fn rank(self) -> int {
        if self.negative() {
            -self.magnitude()
        } else {
            self.magnitude()
        }
    }

    /// The exponent field of the pattern, from 0 to 255.
    pub open spec fn exponent(self) -> int {
        self.magnitude() / 0x80_0000
    }

    /// The fraction field of the pattern, 23 bits.
    pub open spec fn fraction(self) -> int {
        self.magnitude() % 0x80_0000
    }

    /// The finite number that the pattern stands for, in units of two to the
    /// power of -149: every finite number is a whole multiple of that unit.
    /// For an infinity it lies beyond all finite numbers, on its side.
    pub open spec fn scaled_value(self) -> int {
        if self.negative() {
            -magnitude_value(self.magnitude())
        } else {
            magnitude_value(self.magnitude())
        }
    }

    /// The numeric `<`: false as soon as one side is a NaN.
    pub open spec fn below(self, other: Scalar) -> bool {
        !self.nan() && !other.nan() && self.rank() < other.rank()
    }

    /// The numeric `<=`: false as soon as one side is a NaN.
    pub open spec fn at_most(self, other: Scalar) -> bool {
        !self.nan() && !other.nan() && self.rank() <= other.rank()
    }

    /// The numeric `==`: false as soon as one side is a NaN, true of the two
    /// zeros.
    pub open spec fn same_number(self, other: Scalar) -> bool {
        !self.nan() && !other.nan() && self.rank() == other.rank()
    }

    /// The larger of two numbers. A NaN gives way to the other side; of two
    /// equal numbers the left one is kept.
    pub open spec fn spec_max(self, other: Scalar) -> Scalar {
        if other.nan() {
            self
        } else if self.nan() {
            other
        } else if self.rank() >= other.rank() {
            self
        } else {
            other
        }
    }

    /// The smaller of two numbers. A NaN gives way to the other side; of two
    /// equal numbers the left one is kept.
    pub open spec fn spec_min(self, other: Scalar) -> Scalar {
        if other.nan() {
            self
        } else if self.nan() {
            other
        } else if self.rank() <= other.rank() {
            self
        } else {
            other
        }
    }

    /// The number with the opposite sign.
    pub open spec fn spec_neg(self) -> Scalar {
        if self.bits >= SIGN_BIT {
            Scalar { bits: (self.bits - SIGN_BIT) as u32 }
        } else {
            Scalar { bits: (self.bits + SIGN_BIT) as u32 }
        }
    }

    /// Positive zero.
    pub open spec fn spec_zero() -> Scalar {
        Scalar { bits: 0 }
    }

    /// The most negative finite number.
    pub open spec fn spec_lowest() -> Scalar {
        Scalar { bits: SMALLEST_FINITE_BITS }
    }

    /// The largest finite number.
    pub open spec fn spec_highest() -> Scalar {
        Scalar { bits: LARGEST_FINITE_BITS }
    }

    pub fn from_bits(bits: u32) -> (r: Scalar)
        ensures
            r.bits == bits,
    {
        Scalar { bits }
    }

    pub fn to_bits(self) -> (r: u32)
        ensures
            r == self.bits,
    {
        self.bits
    }

    pub fn zero() -> (r: Scalar)
        ensures
            r == Scalar::spec_zero(),
            r.rank() == 0,
            !r.nan(),
    {
        Scalar { bits: 0 }
    }

    pub fn lowest() -> (r: Scalar)
        ensures
            r == Scalar::spec_lowest(),
            r.finite(),
            r.rank() == -(LARGEST_FINITE_BITS as int),
    {
        Scalar { bits: SMALLEST_FINITE_BITS }
    }

    pub fn highest() -> (r: Scalar)
        ensures
            r == Scalar::spec_highest(),
            r.finite(),
            r.rank() == LARGEST_FINITE_BITS as int,
    {
        Scalar { bits: LARGEST_FINITE_BITS }
    }

    /// The pattern with the sign bit cleared.
    pub fn abs_bits(self) -> (r: u32)
        ensures
            r == self.magnitude(),
            r < SIGN_BIT,
    {
        if self.bits >= SIGN_BIT {
            self.bits - SIGN_BIT
        } else {
            self.bits
        }
    }

    pub fn is_sign_negative(self) -> (r: bool)
        ensures
            r == self.negative(),
    {
        self.bits >= SIGN_BIT
    }

    pub fn is_nan(self) -> (r: bool)
        ensures
            r == self.nan(),
    {
        self.abs_bits() > INFINITY_BITS
    }

    pub fn is_finite(self) -> (r: bool)
        ensures
            r == self.finite(),
    {
        self.abs_bits() < INFINITY_BITS
    }

    /// Whether the rank of `self` is below that of `other`, NaN or not.
    fn rank_lt(self, other: Scalar) -> (r: bool)
        ensures
            r == (self.rank() < other.rank()),
    {
        let a: u32 = self.abs_bits();
        let b: u32 = other.abs_bits();
        if self.is_sign_negative() {
            if other.is_sign_negative() {
                a > b
            } else {
                a > 0 || b > 0
            }
        } else {
            if other.is_sign_negative() {
                false
            } else {
                a < b
            }
        }
    }

    /// The numeric `<`.
    pub fn lt(self, other: Scalar) -> (r: bool)
        ensures
            r == self.below(other),
    {
        !self.is_nan() && !other.is_nan() && self.rank_lt(other)
    }

    /// The numeric `<=`.
    pub fn le(self, other: Scalar) -> (r: bool)
        ensures
            r == self.at_most(other),
    {
        !self.is_nan() && !other.is_nan() && !other.rank_lt(self)
    }

    /// The numeric `==`.
    pub fn eq_number(self, other: Scalar) -> (r: bool)
        ensures
            r == self.same_number(other),
    {
        !self.is_nan() && !other.is_nan() && !self.rank_lt(other) && !other.rank_lt(self)
    }

    /// Whether the number is greater than zero.
    pub fn is_positive(self) -> (r: bool)
        ensures
            r == Scalar::spec_zero().below(self),
            r == (!self.nan() && self.rank() > 0),
    {
        Scalar::zero().lt(self)
    }

    pub fn max(self, other: Scalar) -> (r: Scalar)
        ensures
            r == self.spec_max(other),
    {
        if other.is_nan() {
            self
        } else if self.is_nan() {
            other
        } else if self.rank_lt(other) {
            other
        } else {
            self
        }
    }

    pub fn min(self, other: Scalar) -> (r: Scalar)
        ensures
            r == self.spec_min(other),
    {
        if other.is_nan() {
            self
        } else if self.is_nan() {
            other
        } else if other.rank_lt(self) {
            other
        } else {
            self
        }
    }

    /// The number with the opposite sign: only the sign bit changes.
    pub fn neg(self) -> (r: Scalar)
        ensures
            r == self.spec_neg(),
            r.magnitude() == self.magnitude(),
            r.negative() == !self.negative(),
            r.nan() == self.nan(),
            r.rank() == -self.rank(),
    {
        if self.bits >= SIGN_BIT {
            Scalar { bits: self.bits - SIGN_BIT }
        } else {
            Scalar { bits: self.bits + SIGN_BIT }
        }
    }
}

} // verus!
