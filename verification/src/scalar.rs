//! Binary64 numbers by bit pattern.
//!
//! A [`Real`] holds the 64 bits of an IEEE 754 binary64 value. The order of two
//! such values is decided by their bits alone, so every comparison that the
//! runtime makes on energies, residuals and tolerances can be stated and proved
//! here without any floating-point arithmetic.

use vstd::prelude::*;

verus! {

/// The bit that carries the sign.
pub const SIGN_BIT: u64 = 0x8000_0000_0000_0000;

/// The bits of positive infinity; every larger magnitude is a NaN.
pub const INFINITY_BITS: u64 = 0x7ff0_0000_0000_0000;

/// A binary64 number, held as its bit pattern.
#[derive(Clone, Copy, PartialEq, Eq, Debug, Structural)]
pub struct Real {
    pub bits: u64,
}

/// A complex field amplitude.
#[derive(Clone, Copy, PartialEq, Eq, Debug, Structural)]
pub struct Complex {
    pub re: Real,
    pub im: Real,
}

impl Real {
    /// The bits below the sign, as a number.
    pub open spec fn magnitude(self) -> int {
        self.bits as int % SIGN_BIT as int
    }

    /// Whether this is one of the patterns that stand for no number.
    pub open spec fn nan(self) -> bool {
        self.magnitude() > INFINITY_BITS
    }

    /// Whether this is a number and not an infinity.
    pub open spec fn finite(self) -> bool {
        self.magnitude() < INFINITY_BITS
    }

    /// Where the value stands among all values that are not NaN. Both zeros have
    /// rank 0.
    pub open spec fn rank(self) -> int {
        if self.bits < SIGN_BIT {
            self.magnitude()
        } else {
            -self.magnitude()
        }
    }

    /// `self <= other`: false as soon as either side is NaN.
    pub open spec fn at_most(self, other: Real) -> bool {
        !self.nan() && !other.nan() && self.rank() <= other.rank()
    }

    /// `self > other`: false as soon as either side is NaN.
    pub open spec fn above(self, other: Real) -> bool {
        !self.nan() && !other.nan() && self.rank() > other.rank()
    }

    /// `|self| < bound`, for a bound that is not negative: false where `self` is NaN.
    pub open spec fn inside(self, bound: Real) -> bool {
        self.magnitude() < bound.magnitude() && !bound.nan()
    }

    /// The number zero.
    pub fn zero() -> (r: Real)
        ensures
            r.bits == 0,
            r.rank() == 0,
            r.finite(),
    {
        Real { bits: 0 }
    }

    /// Whether the value is NaN.
    pub fn is_nan(&self) -> (r: bool)
        ensures
            r == self.nan(),
    {
        self.bits % SIGN_BIT > INFINITY_BITS
    }

    /// Whether the value is neither infinite nor NaN.
    pub fn is_finite(&self) -> (r: bool)
        ensures
            r == self.finite(),
    {
        self.bits % SIGN_BIT < INFINITY_BITS
    }

    /// `|self| < bound`, for a bound that is not negative.
    pub fn within(&self, bound: &Real) -> (r: bool)
        requires
            bound.bits < SIGN_BIT,
        ensures
            r == self.inside(*bound),
    {
        self.bits % SIGN_BIT < bound.bits % SIGN_BIT && !bound.is_nan()
    }

    /// `self > other`, as IEEE 754 orders the two values.
    pub fn gt(&self, other: &Real) -> (r: bool)
        ensures
            r == self.above(*other),
    {
        if self.is_nan() || other.is_nan() {
            return false;
        }
        let mine: u64 = self.bits % SIGN_BIT;
        let theirs: u64 = other.bits % SIGN_BIT;
        if self.bits < SIGN_BIT {
            if other.bits < SIGN_BIT {
                mine > theirs
            } else {
                mine > 0 || theirs > 0
            }
        } else if other.bits < SIGN_BIT {
            false
        } else {
            mine < theirs
        }
    }

    /// `self <= other`, as IEEE 754 orders the two values.
    pub fn le(&self, other: &Real) -> (r: bool)
        ensures
            r == self.at_most(*other),
    {
        !self.is_nan() && !other.is_nan() && !self.gt(other)
    }
}

/// No value is at once at most a threshold and above it, and it is neither only
/// where one of the two is NaN.
pub proof fn threshold_splits(value: Real, threshold: Real)
    ensures
        !(value.at_most(threshold) && value.above(threshold)),
        value.at_most(threshold) || value.above(threshold) <==> !value.nan() && !threshold.nan(),
{
}

} // verus!
