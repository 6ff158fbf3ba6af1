//! Floating-point quantities carried as their IEEE-754 bit patterns.
//!
//! The library never computes with such values; it stores them, compares
//! them, and tests them against fixed bounds. All of that is integer work on
//! the bit pattern: among the values that are not NaN, ordering by the bits
//! below the sign is ordering by absolute value.
use vstd::prelude::*;

verus! {

/// A binary64 quantity.
#[derive(Debug, Clone, Copy)]
pub struct Real64 {
    pub bits: u64,
}

/// A binary32 quantity.
#[derive(Debug, Clone, Copy)]
pub struct Real32 {
    pub bits: u32,
}

/// The sign bit's weight in a binary64 pattern.
pub const SIGN64: u64 = 0x8000_0000_0000_0000;

/// The pattern of binary64 positive infinity; a larger magnitude is NaN.
pub const INF64: u64 = 0x7FF0_0000_0000_0000;

/// The sign bit's weight in a binary32 pattern.
pub const SIGN32: u32 = 0x8000_0000;

/// The pattern of binary32 positive infinity; a larger magnitude is NaN.
pub const INF32: u32 = 0x7F80_0000;

impl Real64 {
    /// The pattern without its sign bit.
    pub open spec fn magnitude(self) -> u64 {
        if self.bits >= SIGN64 {
            (self.bits - SIGN64) as u64
        } else {
            self.bits
        }
    }

    pub open spec fn is_nan(self) -> bool {
        self.magnitude() > INF64
    }

    /// Numeric equality: NaN equals nothing, the two zeros are equal.
    pub open spec fn eq_value(self, other: Real64) -> bool {
        !self.is_nan() && !other.is_nan() && (self.bits == other.bits || (self.magnitude() == 0
            && other.magnitude() == 0))
    }

    /// Place in the numeric order, for what is a number; the two zeros share
    /// theirs.
    pub open spec fn rank(self) -> int {
        if self.bits >= SIGN64 {
            -(self.magnitude() as int)
        } else {
            self.bits as int
        }
    }

    /// The smaller of two values; what is no number gives way.
    pub open spec fn lesser(self, other: Real64) -> Real64 {
        if self.is_nan() || (!other.is_nan() && other.rank() < self.rank()) {
            other
        } else {
            self
        }
    }

    /// The larger of two values; what is no number gives way.
    pub open spec fn greater(self, other: Real64) -> Real64 {
        if self.is_nan() || (!other.is_nan() && other.rank() > self.rank()) {
            other
        } else {
            self
        }
    }

    fn is_below(self, other: Real64) -> (r: bool)
        ensures
            r == (self.rank() < other.rank()),
    {
        let a: u64 = self.magnitude_bits();
        let b: u64 = other.magnitude_bits();
        if self.bits >= SIGN64 {
            if other.bits >= SIGN64 {
                a > b
            } else {
                a > 0 || b > 0
            }
        } else {
            other.bits < SIGN64 && a < b
        }
    }

    /// Whether the value is a number below the one with that pattern.
    pub open spec fn under(self, bound: u64) -> bool {
        !self.is_nan() && self.rank() < (Real64 { bits: bound }).rank()
    }

    /// Whether the value is a number below the one with that pattern.
    pub fn is_under(self, bound: u64) -> (r: bool)
        ensures
            r == self.under(bound),
    {
        self.magnitude_bits() <= INF64 && self.is_below(Real64 { bits: bound })
    }

    /// The smaller of two values.
    pub fn min_of(self, other: Real64) -> (r: Real64)
        ensures
            r == self.lesser(other),
    {
        if self.magnitude_bits() > INF64 || (other.magnitude_bits() <= INF64 && other.is_below(
            self,
        )) {
            other
        } else {
            self
        }
    }

    /// The larger of two values.
    pub fn max_of(self, other: Real64) -> (r: Real64)
        ensures
            r == self.greater(other),
    {
        if self.magnitude_bits() > INF64 || (other.magnitude_bits() <= INF64 && self.is_below(
            other,
        )) {
            other
        } else {
            self
        }
    }

    /// The value zero.
    pub fn zero() -> (r: Real64)
        ensures
            r.bits == 0,
    {
        Real64 { bits: 0 }
    }

    fn magnitude_bits(self) -> (r: u64)
        ensures
            r == self.magnitude(),
    {
        if self.bits >= SIGN64 {
            self.bits - SIGN64
        } else {
            self.bits
        }
    }

    /// Whether the absolute value is at most the (non-negative, finite) bound.
    pub fn within(self, bound: u64) -> (r: bool)
        ensures
            r == (self.magnitude() <= bound),
    {
        self.magnitude_bits() <= bound
    }

    /// Whether the value is a zero of either sign.
    pub fn is_zero(self) -> (r: bool)
        ensures
            r == (self.magnitude() == 0),
    {
        self.magnitude_bits() == 0
    }

    /// Numeric equality.
    pub fn same_value(self, other: Real64) -> (r: bool)
        ensures
            r == self.eq_value(other),
    {
        let a: u64 = self.magnitude_bits();
        let b: u64 = other.magnitude_bits();
        a <= INF64 && b <= INF64 && (self.bits == other.bits || (a == 0 && b == 0))
    }
}

impl Real32 {
    pub open spec fn is_nan(self) -> bool {
        INF32 < self.bits < SIGN32 || self.bits > SIGN32 + INF32
    }

    /// The value clamped between two positive finite bounds, given by their
    /// patterns; NaN stays NaN.
    pub open spec fn clamped(self, lo: u32, hi: u32) -> Real32 {
        if self.is_nan() {
            self
        } else if self.bits >= SIGN32 || self.bits < lo {
            Real32 { bits: lo }
        } else if self.bits > hi {
            Real32 { bits: hi }
        } else {
            self
        }
    }

    /// Clamp between two positive finite bounds, given by their patterns.
    pub fn clamp_between(self, lo: u32, hi: u32) -> (r: Real32)
        requires
            lo <= hi < INF32,
        ensures
            r == self.clamped(lo, hi),
    {
        let nan = (INF32 < self.bits && self.bits < SIGN32) || self.bits > SIGN32 + INF32;
        if nan {
            self
        } else if self.bits >= SIGN32 || self.bits < lo {
            Real32 { bits: lo }
        } else if self.bits > hi {
            Real32 { bits: hi }
        } else {
            self
        }
    }
}

} // verus!
