//! Observation times.
//!
//! A time is kept as the 64-bit pattern of a double-precision number of
//! seconds, so that fractional precision survives unchanged. Times are
//! compared as such numbers are: by magnitude and sign, the two zeros being
//! equal, and a pattern that stands for no number being neither before nor
//! after anything.

use vstd::prelude::*;

verus! {

/// The pattern without its sign bit.
pub open spec fn magnitude_of(bits: u64) -> u64 {
    if bits >= 0x8000_0000_0000_0000u64 {
        (bits - 0x8000_0000_0000_0000u64) as u64
    } else {
        bits
    }
}

/// The pattern stands for no number: its exponent is all ones and its
/// fraction is not zero.
pub open spec fn is_nan_bits(bits: u64) -> bool {
    magnitude_of(bits) > 0x7FF0_0000_0000_0000u64
}

/// The place of a pattern on the number line: negative numbers lie below
/// the middle by their magnitude, the others above it; both zeros lie at
/// the middle.
pub open spec fn rank_of(bits: u64) -> u64 {
    if bits >= 0x8000_0000_0000_0000u64 {
        (0x8000_0000_0000_0000u64 - magnitude_of(bits)) as u64
    } else {
        (0x8000_0000_0000_0000u64 + magnitude_of(bits)) as u64
    }
}

/// A moment of observation.
#[derive(Clone, Copy, Debug, PartialEq, Eq, Structural)]
pub struct Timestamp {
    pub bits: u64,
}

impl Timestamp {
    /// The time stands for no number.
    pub open spec fn is_nan(self) -> bool {
        is_nan_bits(self.bits)
    }

    /// The place of this time on the number line.
    pub open spec fn rank(self) -> u64 {
        rank_of(self.bits)
    }

    /// `self` is a number, `other` is one, and `self` is the smaller.
    pub open spec fn precedes(self, other: Timestamp) -> bool {
        !self.is_nan() && !other.is_nan() && self.rank() < other.rank()
    }

    /// The two are equal as numbers, or neither is a number.
    pub open spec fn same_moment(self, other: Timestamp) -> bool {
        if self.is_nan() || other.is_nan() {
            self.is_nan() && other.is_nan()
        } else {
            self.rank() == other.rank()
        }
    }

    /// The earlier of two times. Where neither precedes the other `self`
    /// stays; a time that is no number gives way to the other.
    pub open spec fn earlier(self, other: Timestamp) -> Timestamp {
        if self.is_nan() || other.precedes(self) {
            other
        } else {
            self
        }
    }

    /// The later of two times. Where neither precedes the other `self`
    /// stays; a time that is no number gives way to the other.
    pub open spec fn later(self, other: Timestamp) -> Timestamp {
        if self.is_nan() || self.precedes(other) {
            other
        } else {
            self
        }
    }

    /// The time with the given 64-bit pattern.
    pub fn from_bits(bits: u64) -> (t: Timestamp)
        ensures
            t.bits == bits,
    {
        Timestamp { bits }
    }

    /// The 64-bit pattern of this time.
    pub fn to_bits(self) -> (bits: u64)
        ensures
            bits == self.bits,
    {
        self.bits
    }

    fn magnitude(self) -> (m: u64)
        ensures
            m == magnitude_of(self.bits),
    {
        if self.bits >= 0x8000_0000_0000_0000u64 {
            self.bits - 0x8000_0000_0000_0000u64
        } else {
            self.bits
        }
    }

    /// Tells whether the time stands for no number.
    pub fn is_not_a_number(self) -> (b: bool)
        ensures
            b == self.is_nan(),
    {
        self.magnitude() > 0x7FF0_0000_0000_0000u64
    }

    /// Computes the place of the time on the number line.
    pub fn order_rank(self) -> (r: u64)
        ensures
            r == self.rank(),
    {
        if self.bits >= 0x8000_0000_0000_0000u64 {
            0x8000_0000_0000_0000u64 - self.magnitude()
        } else {
            0x8000_0000_0000_0000u64 + self.magnitude()
        }
    }

    /// Tells whether `self` lies before `other`.
    pub fn is_before(self, other: Timestamp) -> (b: bool)
        ensures
            b == self.precedes(other),
    {
        !self.is_not_a_number() && !other.is_not_a_number() && self.order_rank()
            < other.order_rank()
    }

    /// Returns the earlier of `self` and `other`, keeping `self` on a tie.
    pub fn min(self, other: Timestamp) -> (t: Timestamp)
        ensures
            t == self.earlier(other),
    {
        if self.is_not_a_number() || other.is_before(self) {
            other
        } else {
            self
        }
    }

    /// Returns the later of `self` and `other`, keeping `self` on a tie.
    pub fn max(self, other: Timestamp) -> (t: Timestamp)
        ensures
            t == self.later(other),
    {
        if self.is_not_a_number() || self.is_before(other) {
            other
        } else {
            self
        }
    }
}

/// Taking the earlier time is associative.
pub proof fn earlier_is_associative(a: Timestamp, b: Timestamp, c: Timestamp)
    ensures
        a.earlier(b).earlier(c) == a.earlier(b.earlier(c)),
{
}

/// Taking the later time is associative.
pub proof fn later_is_associative(a: Timestamp, b: Timestamp, c: Timestamp)
    ensures
        a.later(b).later(c) == a.later(b.later(c)),
{
}

/// Taking the earlier or the later time is idempotent, and commutative up
/// to equality as numbers.
pub proof fn earlier_later_commute(a: Timestamp, b: Timestamp)
    ensures
        a.earlier(b).same_moment(b.earlier(a)),
        a.later(b).same_moment(b.later(a)),
        a.earlier(a) == a,
        a.later(a) == a,
{
}

} // verus!
