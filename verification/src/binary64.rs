//! IEEE-754 double-precision values, carried as their bit patterns.
//!
//! The engine never does arithmetic on scores and importances; it only asks
//! whether they are finite, whether they lie in a range, and which of two is
//! larger. All three questions are answered here on the 64-bit pattern.

use vstd::prelude::*;

verus! {

/// Bit pattern of `+inf`; every larger magnitude is a NaN.
pub const INFINITY_BITS: u64 = 0x7FF0_0000_0000_0000;

/// Bit pattern of `1.0`.
pub const ONE_BITS: u64 = 0x3FF0_0000_0000_0000;

/// The sign bit.
pub const SIGN_BIT: u64 = 0x8000_0000_0000_0000;

/// A double-precision value, as the 64 bits that encode it.
#[derive(Debug, Clone, Copy, PartialEq, Eq, Structural)]
pub struct Binary64 {
    pub bits: u64,
}

impl Binary64 {
    /// The bits without the sign.
    pub open spec fn magnitude(self) -> int {
        if self.bits < SIGN_BIT {
            self.bits as int
        } else {
            self.bits - SIGN_BIT
        }
    }

    /// An integer that orders non-NaN values as the numbers they encode: two
    /// values compare as their ranks do, and both zeros have rank 0.
    pub open spec fn rank(self) -> int {
        if self.bits < SIGN_BIT {
            self.bits as int
        } else {
            -(self.bits - SIGN_BIT)
        }
    }

    /// The value is not a number.
    pub open spec fn spec_is_nan(self) -> bool {
        self.magnitude() > INFINITY_BITS
    }

    /// The value is a number other than the two infinities.
    pub open spec fn spec_is_finite(self) -> bool {
        self.magnitude() < INFINITY_BITS
    }

    /// The value is a number `x` with `0 <= x <= 1`.
    pub open spec fn spec_in_unit_interval(self) -> bool {
        !self.spec_is_nan() && 0 <= self.rank() <= ONE_BITS
    }

    /// `self < other` as numbers; false when either is NaN.
    pub open spec fn spec_less(self, other: Binary64) -> bool {
        !self.spec_is_nan() && !other.spec_is_nan() && self.rank() < other.rank()
    }

    /// The value with the given bit pattern.
    pub fn from_bits(bits: u64) -> (r: Binary64)
        ensures
            r == (Binary64 { bits }),
    {
        Binary64 { bits }
    }

    /// The bit pattern.
    pub fn to_bits(self) -> (r: u64)
        ensures
            r == self.bits,
    {
        self.bits
    }

    /// Whether the value is not a number.
    pub fn is_nan(self) -> (r: bool)
        ensures
            r == self.spec_is_nan(),
    {
        if self.bits < SIGN_BIT {
            self.bits > INFINITY_BITS
        } else {
            self.bits - SIGN_BIT > INFINITY_BITS
        }
    }

    /// Whether the value is neither infinite nor NaN.
    pub fn is_finite(self) -> (r: bool)
        ensures
            r == self.spec_is_finite(),
    {
        if self.bits < SIGN_BIT {
            self.bits < INFINITY_BITS
        } else {
            self.bits - SIGN_BIT < INFINITY_BITS
        }
    }

    /// Whether the value lies in `[0, 1]`. Negative zero does; NaN does not.
    pub fn in_unit_interval(self) -> (r: bool)
        ensures
            r == self.spec_in_unit_interval(),
            r ==> self.spec_is_finite(),
    {
        self.bits <= ONE_BITS || self.bits == SIGN_BIT
    }

    /// Whether `self < other` as numbers.
    pub fn less(self, other: Binary64) -> (r: bool)
        ensures
            r == self.spec_less(other),
    {
        if self.is_nan() || other.is_nan() {
            false
        } else if self.bits < SIGN_BIT {
            other.bits < SIGN_BIT && self.bits < other.bits
        } else if other.bits < SIGN_BIT {
            !(self.bits == SIGN_BIT && other.bits == 0)
        } else {
            other.bits < self.bits
        }
    }
}

/// On numbers, "less" is a strict weak order: irreflexive, asymmetric, and
/// neither of two incomparable values can be told apart by a third.
pub proof fn less_is_strict_weak_order(a: Binary64, b: Binary64, c: Binary64)
    requires
        !a.spec_is_nan(),
        !b.spec_is_nan(),
        !c.spec_is_nan(),
    ensures
        !a.spec_less(a),
        a.spec_less(b) ==> !b.spec_less(a),
        a.spec_less(b) && b.spec_less(c) ==> a.spec_less(c),
        !a.spec_less(b) && !b.spec_less(c) ==> !a.spec_less(c),
{
}

/// "Less" is the order of numbers: above zero that of the bit patterns, below zero
/// the reverse, and every negative number is less than every positive one. The two
/// zeros are the same, and what is no number is less than nothing and nothing is
/// less than it.
pub proof fn less_is_the_order_of_numbers(a: Binary64, b: Binary64, r: bool)
    requires
        call_ensures(Binary64::less, (a, b), r),
    ensures
        r == a.spec_less(b),
        a.bits < SIGN_BIT && b.bits < SIGN_BIT && a.bits <= INFINITY_BITS && b.bits
            <= INFINITY_BITS ==> (r <==> a.bits < b.bits),
        a.bits >= SIGN_BIT && b.bits >= SIGN_BIT && a.bits <= SIGN_BIT + INFINITY_BITS && b.bits
            <= SIGN_BIT + INFINITY_BITS ==> (r <==> a.bits > b.bits),
        SIGN_BIT < a.bits <= SIGN_BIT + INFINITY_BITS && b.bits <= INFINITY_BITS ==> r,
        a.bits <= INFINITY_BITS && SIGN_BIT <= b.bits ==> !r,
        a.bits == SIGN_BIT && b.bits <= INFINITY_BITS ==> (r <==> b.bits > 0),
        INFINITY_BITS < a.bits < SIGN_BIT || a.bits > SIGN_BIT + INFINITY_BITS ==> !r,
        INFINITY_BITS < b.bits < SIGN_BIT || b.bits > SIGN_BIT + INFINITY_BITS ==> !r,
        !a.spec_is_nan() && !b.spec_is_nan() ==> (r <==> a.rank() < b.rank()),
{
}

/// A value is no number just when its magnitude is above that of infinity, and
/// finite just when it is below it.
pub proof fn magnitude_tells_numbers_apart(a: Binary64, nan: bool, finite: bool)
    requires
        call_ensures(Binary64::is_nan, (a,), nan),
        call_ensures(Binary64::is_finite, (a,), finite),
    ensures
        nan <==> 0x7FF0_0000_0000_0000 < a.bits < 0x8000_0000_0000_0000 || a.bits
            > 0xFFF0_0000_0000_0000,
        finite <==> a.bits < 0x7FF0_0000_0000_0000 || 0x8000_0000_0000_0000 <= a.bits
            < 0xFFF0_0000_0000_0000,
        nan == a.spec_is_nan(),
        finite == a.spec_is_finite(),
{
}

/// The unit interval holds just the numbers that are neither less than zero nor
/// greater than one.
pub proof fn unit_interval_lies_between_zero_and_one(
    x: Binary64,
    r: bool,
    below: bool,
    above: bool,
    nan: bool,
)
    requires
        call_ensures(Binary64::in_unit_interval, (x,), r),
        call_ensures(Binary64::less, (x, Binary64 { bits: 0 }), below),
        call_ensures(Binary64::less, (Binary64 { bits: 0x3FF0_0000_0000_0000 }, x), above),
        call_ensures(Binary64::is_nan, (x,), nan),
    ensures
        r <==> !nan && !below && !above,
        r == x.spec_in_unit_interval(),
{
}

/// A value and its bit pattern are the same.
pub proof fn bits_come_back(bits: u64, x: Binary64, r: u64)
    requires
        call_ensures(Binary64::from_bits, (bits,), x),
        call_ensures(Binary64::to_bits, (x,), r),
    ensures
        x.bits == bits,
        r == bits,
{
}

} // verus!
