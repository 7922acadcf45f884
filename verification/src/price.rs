//! Prices as IEEE 754 binary64 bit patterns.
//!
//! A price is carried as the 64 bits of a double-precision number, so that it
//! can be stored and ordered with integer arithmetic alone. The ordering
//! defined here is the IEEE 754 partial order: not-a-number is comparable with
//! nothing, positive and negative zero are equal, and every other pair is
//! ordered by sign and magnitude.

use vstd::prelude::*;

verus! {

/// The bit that carries the sign.
pub const SIGN_BIT: u64 = 0x8000_0000_0000_0000;

/// The magnitude of an infinity; every larger magnitude is not-a-number.
pub const INFINITY_BITS: u64 = 0x7FF0_0000_0000_0000;

/// A price, held as the bit pattern of a double-precision number.
///
/// `==` on prices compares bit patterns; equality of the numbers is
/// [`Price::level_with`].
#[derive(Clone, Copy, Debug, PartialEq, Eq, Structural)]
pub struct Price {
    pub bits: u64,
}

impl Price {
    /// The bit pattern without its sign bit.
    pub open spec fn magnitude(self) -> int {
        if self.bits >= SIGN_BIT {
            self.bits - SIGN_BIT
        } else {
            self.bits as int
        }
    }

    /// Whether the sign bit is set.
    pub open spec fn negative(self) -> bool {
        self.bits >= SIGN_BIT
    }

    /// Whether the pattern encodes not-a-number.
    pub open spec fn nan(self) -> bool {
        self.magnitude() > INFINITY_BITS
    }

    /// The position of a number on the extended real line, as an integer that
    /// grows with the number. Both zeros have rank 0. Meaningful for patterns
    /// that are not not-a-number.
    pub open spec fn rank(self) -> int {
        if self.negative() {
            -self.magnitude()
        } else {
            self.magnitude()
        }
    }

    /// Whether the pattern encodes a finite number: neither an infinity nor
    /// not-a-number.
    pub open spec fn finite(self) -> bool {
        self.magnitude() < INFINITY_BITS
    }

    /// Whether the number can be the price of a quote: it is finite and not
    /// below zero.
    pub open spec fn quotable(self) -> bool {
        self.finite() && self.rank() >= 0
    }

    /// `self > other` in the IEEE 754 partial order.
    pub open spec fn above(self, other: Price) -> bool {
        !self.nan() && !other.nan() && self.rank() > other.rank()
    }

    /// `self < other` in the IEEE 754 partial order.
    pub open spec fn below(self, other: Price) -> bool {
        !self.nan() && !other.nan() && self.rank() < other.rank()
    }

    /// `self == other` in the IEEE 754 partial order.
    pub open spec fn level_with(self, other: Price) -> bool {
        !self.nan() && !other.nan() && self.rank() == other.rank()
    }

    /// Neither `<`, `==` nor `>` holds: one side is not-a-number.
    pub open spec fn unordered_with(self, other: Price) -> bool {
        self.nan() || other.nan()
    }

    /// The price with the given bit pattern.
    pub fn from_bits(bits: u64) -> (price: Price)
        ensures
            price.bits == bits,
    {
        Price { bits }
    }

    /// The bit pattern of the price.
    pub fn to_bits(&self) -> (bits: u64)
        ensures
            bits == self.bits,
    {
        self.bits
    }

    /// Positive zero, the price that stands for "no price found".
    pub fn zero() -> (price: Price)
        ensures
            price.bits == 0,
            price.quotable(),
            price.rank() == 0,
    {
        Price { bits: 0 }
    }

    /// Whether the price is not-a-number.
    pub fn is_nan(&self) -> (answer: bool)
        ensures
            answer == self.nan(),
    {
        let magnitude: u64 = if self.bits >= SIGN_BIT {
            self.bits - SIGN_BIT
        } else {
            self.bits
        };
        magnitude > INFINITY_BITS
    }

    /// Whether the number can be the price of a quote.
    pub fn is_quotable(&self) -> (answer: bool)
        ensures
            answer == self.quotable(),
    {
        if self.bits >= SIGN_BIT {
            self.bits == SIGN_BIT
        } else {
            self.bits < INFINITY_BITS
        }
    }

    /// Whether `self > other`.
    pub fn is_above(&self, other: &Price) -> (answer: bool)
        ensures
            answer == self.above(*other),
    {
        other.is_below(self)
    }

    /// Whether `self < other`.
    pub fn is_below(&self, other: &Price) -> (answer: bool)
        ensures
            answer == self.below(*other),
    {
        if self.is_nan() || other.is_nan() {
            return false;
        }
        let mine_negative: bool = self.bits >= SIGN_BIT;
        let theirs_negative: bool = other.bits >= SIGN_BIT;
        if mine_negative {
            let mine: u64 = self.bits - SIGN_BIT;
            if theirs_negative {
                mine > other.bits - SIGN_BIT
            } else {
                mine > 0 || other.bits > 0
            }
        } else {
            if theirs_negative {
                false
            } else {
                self.bits < other.bits
            }
        }
    }
}

/// Of two prices exactly one of `<`, `==`, `>` and "unordered" holds, and
/// swapping the sides swaps `<` with `>`: the four cases by which a price is
/// classified against another leave no pair out and never overlap.
pub proof fn lemma_price_order(a: Price, b: Price)
    ensures
        a.above(b) <==> b.below(a),
        a.level_with(b) <==> b.level_with(a),
        a.above(b) || a.below(b) || a.level_with(b) || a.unordered_with(b),
        !(a.above(b) && a.below(b)),
        !(a.above(b) && a.level_with(b)),
        !(a.below(b) && a.level_with(b)),
        a.unordered_with(b) ==> !a.above(b) && !a.below(b) && !a.level_with(b),
{
}

} // verus!
