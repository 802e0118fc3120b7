//! Exact rational numbers over 128-bit integers.
//!
//! Every quantity the model computes with — sample positions, the period and
//! barrier geometry, potential values — is an exact rational `num / den` with
//! a positive denominator. Comparisons cross-multiply, so the strict boundary
//! policy of the potential (well closed, barrier open) is decided exactly.

use vstd::arithmetic::div_mod::lemma_mod_division_less_than_divisor;
use vstd::prelude::*;

verus! {

/// An exact rational number `num / den`; well-formed values keep `den > 0`.
/// Values are not normalised: `2/4` and `1/2` are equal as values
/// (`rat_eq`) while remaining distinct representations.
#[derive(Clone, Copy, Debug, PartialEq, Eq, Structural)]
pub struct Rational {
    pub num: i128,
    pub den: i128,
}

/// The rational with value zero.
pub open spec fn rat_zero() -> Rational {
    Rational { num: 0, den: 1 }
}

/// `a < b` as rational values, by cross-multiplication.
/// Meaningful only for well-formed operands (positive denominators).
pub open spec fn rat_lt(a: Rational, b: Rational) -> bool {
    a.num * b.den < b.num * a.den
}

/// `a <= b` as rational values, by cross-multiplication.
pub open spec fn rat_le(a: Rational, b: Rational) -> bool {
    a.num * b.den <= b.num * a.den
}

/// `a == b` as rational values, by cross-multiplication.
pub open spec fn rat_eq(a: Rational, b: Rational) -> bool {
    a.num * b.den == b.num * a.den
}

impl Rational {
    /// Well-formedness: the denominator is positive.
    pub open spec fn wf(self) -> bool {
        0 < self.den
    }

    /// Headroom for configuration values: numerator and denominator fit
    /// within `2^20`, so products with sample-sized values stay far from
    /// `i128` overflow.
    pub open spec fn small(self) -> bool {
        &&& self.wf()
        &&& -0x10_0000 <= self.num <= 0x10_0000
        &&& self.den <= 0x10_0000
    }

    /// Headroom for sample values: numerator and denominator fit within
    /// `2^62`, so cross-multiplied comparisons stay within `i128`.
    pub open spec fn bounded(self) -> bool {
        &&& self.wf()
        &&& -0x4000_0000_0000_0000 <= self.num <= 0x4000_0000_0000_0000
        &&& self.den <= 0x4000_0000_0000_0000
    }

    /// The rational with integer value `n`.
    pub fn from_int(n: i128) -> (r: Rational)
        ensures
            r.num == n,
            r.den == 1,
            r.wf(),
    {
        Rational { num: n, den: 1 }
    }

    /// `self < other` as rational values.
    pub fn lt_value(&self, other: &Rational) -> (r: bool)
        requires
            self.bounded(),
            other.bounded(),
        ensures
            r == rat_lt(*self, *other),
    {
        proof {
            lemma_mul_bound(
                self.num as int,
                other.den as int,
                0x4000_0000_0000_0000,
                0x4000_0000_0000_0000,
            );
            lemma_mul_bound(
                other.num as int,
                self.den as int,
                0x4000_0000_0000_0000,
                0x4000_0000_0000_0000,
            );
        }
        self.num * other.den < other.num * self.den
    }

    /// `self <= other` as rational values.
    pub fn le_value(&self, other: &Rational) -> (r: bool)
        requires
            self.bounded(),
            other.bounded(),
        ensures
            r == rat_le(*self, *other),
    {
        !other.lt_value(self)
    }

    /// `self == other` as rational values (representation-independent).
    pub fn eq_value(&self, other: &Rational) -> (r: bool)
        requires
            self.bounded(),
            other.bounded(),
        ensures
            r == rat_eq(*self, *other),
    {
        !self.lt_value(other) && !other.lt_value(self)
    }
}

/// Bounds on two factors bound their product.
pub proof fn lemma_mul_bound(a: int, b: int, ca: int, cb: int) by (nonlinear_arith)
    requires
        -ca <= a <= ca,
        -cb <= b <= cb,
    ensures
        -(ca * cb) <= a * b <= ca * cb,
{
}

/// Euclidean remainder: the mathematical `a % b` for positive `b`,
/// which is nonnegative even when `a` is negative.
pub fn euclid_rem(a: i128, b: i128) -> (r: i128)
    requires
        0 < b,
    ensures
        r == a as int % b as int,
        0 <= r < b,
{
    proof {
        lemma_mod_division_less_than_divisor(a as int, b as int);
    }
    match a.checked_rem_euclid(b) {
        Some(m) => m,
        None => {
            proof {
                assert(false);
            }
            0
        },
    }
}

} // verus!
