//! Binary floating-point readings, held by their bit patterns.
//!
//! The provider reports some readings as IEEE 754 values. This library does
//! no arithmetic on them: it carries them, and it orders the single-precision
//! ones. Both need the bit pattern only.

use vstd::prelude::*;

verus! {

/// The bit that holds the sign of a single-precision value.
pub const SIGN_BIT: u32 = 0x8000_0000;

/// The bit pattern of positive infinity in single precision. Every pattern
/// whose other 31 bits are greater is a NaN.
pub const INFINITY_BITS: u32 = 0x7f80_0000;

/// A single-precision IEEE 754 value, by its bit pattern.
#[derive(Clone, Copy, Debug, PartialEq, Eq)]
pub struct Single {
    pub bits: u32,
}

/// A double-precision IEEE 754 value, by its bit pattern.
#[derive(Clone, Copy, Debug, PartialEq, Eq)]
pub struct Double {
    pub bits: u64,
}

impl Single {
    /// Whether the sign bit is set.
    pub open spec fn is_negative(self) -> bool {
        self.bits >= SIGN_BIT
    }

    /// The pattern without its sign bit. Among values of one sign that are no
    /// NaN, a greater magnitude has a greater pattern.
    pub open spec fn magnitude(self) -> int {
        if self.bits >= SIGN_BIT {
            self.bits - SIGN_BIT
        } else {
            self.bits as int
        }
    }

    /// Whether the value is a NaN, which compares with no value.
    pub open spec fn is_nan(self) -> bool {
        self.magnitude() > INFINITY_BITS
    }

    /// An integer that orders the values as IEEE 754 compares them: of two
    /// values that are no NaN, the lesser has the lesser rank, and equal values
    /// have equal ranks. Both zeros have rank 0.
    pub open spec fn rank(self) -> int {
        if self.is_negative() {
            -self.magnitude()
        } else {
            self.magnitude()
        }
    }

    /// Tells whether the value can be compared, that is whether it is no NaN.
    pub fn is_comparable(&self) -> (yes: bool)
        ensures
            yes == !self.is_nan(),
    {
        if self.bits >= SIGN_BIT {
            self.bits - SIGN_BIT <= INFINITY_BITS
        } else {
            self.bits <= INFINITY_BITS
        }
    }

    /// Computes the rank of the value.
    pub fn order_key(&self) -> (key: i64)
        ensures
            key == self.rank(),
            -(SIGN_BIT as int) < key < SIGN_BIT as int,
            !self.is_nan() ==> -(INFINITY_BITS as int) <= key <= INFINITY_BITS as int,
    {
        if self.bits >= SIGN_BIT {
            let magnitude: u32 = self.bits - SIGN_BIT;
            -(magnitude as i64)
        } else {
            self.bits as i64
        }
    }
}

/// Two patterns have the same rank exactly where they are the same pattern or
/// are both a zero, the one with and the one without the sign.
pub proof fn lemma_equal_ranks(a: Single, b: Single)
    ensures
        a.rank() == b.rank() <==> a.bits == b.bits || (a.magnitude() == 0 && b.magnitude() == 0),
{
}

} // verus!
