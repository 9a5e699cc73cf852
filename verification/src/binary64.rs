//! Floating-point amounts, carried by their IEEE 754 binary64 bit patterns. The
//! library compares them and picks between them; arithmetic on them is done by
//! the caller.

use vstd::prelude::*;

verus! {

/// The bit pattern of `0.0`.
pub const ZERO_BITS: u64 = 0;

/// The bit pattern of `-1.0`.
pub const MINUS_ONE_BITS: u64 = 0xBFF0_0000_0000_0000;

/// The bit pattern of `60.0`.
pub const SIXTY_BITS: u64 = 0x404E_0000_0000_0000;

/// The bit pattern of `100.0`.
pub const HUNDRED_BITS: u64 = 0x4059_0000_0000_0000;

/// The bit pattern of `1440.0`.
pub const MINUTES_PER_DAY_BITS: u64 = 0x4096_8000_0000_0000;

/// The bit pattern of positive infinity. Patterns above it, up to the sign bit,
/// are not numbers.
pub const INFINITY_BITS: u64 = 0x7FF0_0000_0000_0000;

/// The sign bit alone.
pub const SIGN_BIT: u64 = 0x8000_0000_0000_0000;

/// A binary64 value.
#[derive(Debug, Clone, Copy, PartialEq, Eq, Structural)]
pub struct Binary64 {
    pub bits: u64,
}

/// The value with the given bit pattern.
pub open spec fn b64(bits: u64) -> Binary64 {
    Binary64 { bits }
}

impl Binary64 {
    /// Where the value stands among all values: numbers are ordered as their
    /// ranks are, and the two zeros have the same rank.
    pub open spec fn rank(self) -> int {
        if self.bits < SIGN_BIT {
            self.bits as int
        } else {
            SIGN_BIT - self.bits
        }
    }

    /// Not a number.
    pub open spec fn nan(self) -> bool {
        self.rank() > INFINITY_BITS || -self.rank() > INFINITY_BITS
    }

    /// One of the two infinities.
    pub open spec fn infinite(self) -> bool {
        self.rank() == INFINITY_BITS || -self.rank() == INFINITY_BITS
    }

    /// Both are numbers and the first is less.
    pub open spec fn lt(self, other: Binary64) -> bool {
        !self.nan() && !other.nan() && self.rank() < other.rank()
    }

    /// A percentage held between 0 and 100. What is not a number stays as it is.
    pub open spec fn percent(self) -> Binary64 {
        if self.lt(b64(ZERO_BITS)) {
            b64(ZERO_BITS)
        } else if b64(HUNDRED_BITS).lt(self) {
            b64(HUNDRED_BITS)
        } else {
            self
        }
    }

    /// Whether `self - earlier` is zero or negative. Subtraction never rounds a
    /// difference to zero or to the other sign, and the difference of two equal
    /// infinities is not a number.
    pub open spec fn has_not_risen_from(self, earlier: Binary64) -> bool {
        &&& !self.nan()
        &&& !earlier.nan()
        &&& self.rank() <= earlier.rank()
        &&& !(self.infinite() && self.rank() == earlier.rank())
    }

    fn signed_rank(&self) -> (rank: i64)
        ensures
            rank == self.rank(),
    {
        if self.bits < SIGN_BIT {
            self.bits as i64
        } else {
            -((self.bits - SIGN_BIT) as i64)
        }
    }

    /// Not a number.
    pub fn is_nan(&self) -> (nan: bool)
        ensures
            nan == self.nan(),
    {
        let rank: i64 = self.signed_rank();
        rank > INFINITY_BITS as i64 || rank < -(INFINITY_BITS as i64)
    }

    /// Whether the value is less than another, as `<` of binary64 decides it.
    pub fn is_less_than(&self, other: &Binary64) -> (less: bool)
        ensures
            less == self.lt(*other),
    {
        !self.is_nan() && !other.is_nan() && self.signed_rank() < other.signed_rank()
    }

    /// Whether the value is greater than zero.
    pub fn is_positive(&self) -> (positive: bool)
        ensures
            positive == b64(ZERO_BITS).lt(*self),
    {
        (Binary64 { bits: ZERO_BITS }).is_less_than(self)
    }

    /// The percentage held between 0 and 100.
    pub fn clamp_percent(&self) -> (clamped: Binary64)
        ensures
            clamped == self.percent(),
    {
        let zero = Binary64 { bits: ZERO_BITS };
        let hundred = Binary64 { bits: HUNDRED_BITS };
        if self.is_less_than(&zero) {
            zero
        } else if hundred.is_less_than(self) {
            hundred
        } else {
            *self
        }
    }

    /// Whether the value has not risen since `earlier`.
    pub fn not_risen_from(&self, earlier: &Binary64) -> (not_risen: bool)
        ensures
            not_risen == self.has_not_risen_from(*earlier),
    {
        let now: i64 = self.signed_rank();
        let before: i64 = earlier.signed_rank();
        let infinite = now == INFINITY_BITS as i64 || now == -(INFINITY_BITS as i64);
        !self.is_nan() && !earlier.is_nan() && now <= before && !(infinite && now == before)
    }
}

/// A percentage lies between 0 and 100 once held there, and holding it there again
/// changes nothing.
pub proof fn law_percent_is_in_range(value: Binary64)
    ensures
        !value.nan() ==> 0 <= value.percent().rank() <= b64(HUNDRED_BITS).rank(),
        value.percent().percent() == value.percent(),
        value.nan() ==> value.percent() == value,
{
}

/// Of two numbers, a greater one has risen from the other and an equal finite one
/// has not.
pub proof fn law_risen_means_greater(value: Binary64, earlier: Binary64)
    requires
        !value.nan(),
        !earlier.nan(),
        !value.infinite() || !earlier.infinite(),
    ensures
        value.has_not_risen_from(earlier) <==> !earlier.lt(value),
{
}

/// A bit pattern that stands for no number: its exponent is all ones and something
/// follows it.
pub open spec fn is_nan_pattern(bits: u64) -> bool {
    0x7FF0_0000_0000_0000 < bits < 0x8000_0000_0000_0000 || 0xFFF0_0000_0000_0000 < bits
}

/// How patterns compare: what is not a number compares with nothing; without a sign
/// the greater pattern is the greater number, with a sign it is the lesser one; and a
/// number with a sign is less than one without, unless both are zero.
pub proof fn law_patterns_compare_as_numbers(a: Binary64, b: Binary64)
    ensures
        a.nan() <==> is_nan_pattern(a.bits),
        is_nan_pattern(a.bits) || is_nan_pattern(b.bits) ==> !a.lt(b),
        !is_nan_pattern(a.bits) && !is_nan_pattern(b.bits) ==> {
            let a_signed = a.bits >= 0x8000_0000_0000_0000;
            let b_signed = b.bits >= 0x8000_0000_0000_0000;
            &&& !a_signed && !b_signed ==> (a.lt(b) <==> a.bits < b.bits)
            &&& a_signed && b_signed ==> (a.lt(b) <==> a.bits > b.bits)
            &&& !a_signed && b_signed ==> !a.lt(b)
            &&& a_signed && !b_signed ==> (a.lt(b) <==> a.bits != 0x8000_0000_0000_0000 || b.bits
                != 0)
        },
{
}

/// A percentage stays as it is between 0 and 100, and where it is not a number; below
/// it becomes 0, above it becomes 100.
pub proof fn law_percent_is_clamped(value: Binary64)
    ensures
        value.lt(b64(0)) ==> value.percent() == b64(0),
        b64(0x4059_0000_0000_0000).lt(value) ==> value.percent() == b64(0x4059_0000_0000_0000),
        !value.lt(b64(0)) && !b64(0x4059_0000_0000_0000).lt(value) ==> value.percent() == value,
{
}

/// A percentage has risen unless both are numbers and the later one is not the
/// greater; of two equal infinities the difference is not a number, and so it is not
/// known not to have risen.
pub proof fn law_not_risen(value: Binary64, earlier: Binary64)
    ensures
        value.has_not_risen_from(earlier) <==> {
            &&& !is_nan_pattern(value.bits)
            &&& !is_nan_pattern(earlier.bits)
            &&& !earlier.lt(value)
            &&& !(value.bits == earlier.bits && (value.bits == 0x7FF0_0000_0000_0000 || value.bits
                == 0xFFF0_0000_0000_0000))
        },
{
}

} // verus!
