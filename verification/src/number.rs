//! Numbers: IEEE 754 double-precision values, held as their 64 bits.
//!
//! Order, equality and negation are decided here from the bits. Arithmetic
//! and the conversion from and to text are the host's.
use vstd::prelude::*;

verus! {

/// The sign bit.
pub const SIGN: u64 = 0x8000_0000_0000_0000;

/// The bits of positive infinity: every larger magnitude is not a number.
pub const INFINITY: u64 = 0x7FF0_0000_0000_0000;

/// A double-precision number, as its bits.
#[derive(Debug, Clone, Copy, PartialEq, Eq, Structural)]
pub struct Number {
    pub bits: u64,
}

impl Number {
    /// The bits without the sign.
    pub open spec fn magnitude_spec(self) -> int {
        self.bits as int % SIGN as int
    }

    /// Whether the sign bit is set.
    pub open spec fn negative_spec(self) -> bool {
        self.bits >= SIGN
    }

    /// Whether the bits stand for no number ("NaN").
    pub open spec fn is_nan_spec(self) -> bool {
        self.magnitude_spec() > INFINITY
    }

    /// An integer that orders the numbers as their values are ordered: both
    /// zeros get 0, and a larger value gets a larger integer.
    pub open spec fn rank(self) -> int {
        if self.negative_spec() {
            -self.magnitude_spec()
        } else {
            self.magnitude_spec()
        }
    }

    /// Whether `self` is less than `other`. Nothing is less than, or has
    /// less than it, what is not a number.
    pub open spec fn lt_spec(self, other: Number) -> bool {
        !self.is_nan_spec() && !other.is_nan_spec() && self.rank() < other.rank()
    }

    /// Whether `self` equals `other` as a value: the two zeros are equal,
    /// and what is not a number equals nothing, not even itself.
    pub open spec fn eq_spec(self, other: Number) -> bool {
        !self.is_nan_spec() && !other.is_nan_spec() && self.rank() == other.rank()
    }

    /// The bits of `self` with the sign flipped.
    pub open spec fn neg_spec(self) -> Number {
        if self.bits >= SIGN {
            Number { bits: (self.bits - SIGN) as u64 }
        } else {
            Number { bits: (self.bits + SIGN) as u64 }
        }
    }

    /// The number with the given bits.
    pub fn from_bits(bits: u64) -> (number: Number)
        ensures
            number.bits == bits,
    {
        Number { bits }
    }

    /// The bits without the sign.
    pub fn magnitude(self) -> (m: u64)
        ensures
            m == self.magnitude_spec(),
            m < SIGN,
    {
        self.bits % SIGN
    }

    /// Whether the sign bit is set.
    pub fn negative(self) -> (r: bool)
        ensures
            r == self.negative_spec(),
    {
        self.bits >= SIGN
    }

    /// Whether the bits stand for no number.
    pub fn is_nan(self) -> (r: bool)
        ensures
            r == self.is_nan_spec(),
    {
        self.magnitude() > INFINITY
    }

    /// Whether `self` is less than `other`.
    pub fn lt(self, other: Number) -> (r: bool)
        ensures
            r == self.lt_spec(other),
    {
        if self.is_nan() || other.is_nan() {
            return false;
        }
        let a: u64 = self.magnitude();
        let b: u64 = other.magnitude();
        if self.negative() {
            if other.negative() {
                a > b
            } else {
                a > 0 || b > 0
            }
        } else {
            if other.negative() {
                false
            } else {
                a < b
            }
        }
    }

    /// Whether `self` is less than or equal to `other`.
    pub fn le(self, other: Number) -> (r: bool)
        ensures
            r == (self.lt_spec(other) || self.eq_spec(other)),
    {
        self.lt(other) || self.equals(other)
    }

    /// Whether `self` equals `other` as a value.
    pub fn equals(self, other: Number) -> (r: bool)
        ensures
            r == self.eq_spec(other),
    {
        if self.is_nan() || other.is_nan() {
            return false;
        }
        let a: u64 = self.magnitude();
        let b: u64 = other.magnitude();
        if self.negative() == other.negative() {
            a == b
        } else {
            a == 0 && b == 0
        }
    }

    /// The number with the opposite sign.
    pub fn negate(self) -> (r: Number)
        ensures
            r == self.neg_spec(),
    {
        if self.bits >= SIGN {
            Number { bits: self.bits - SIGN }
        } else {
            Number { bits: self.bits + SIGN }
        }
    }
}

} // verus!
