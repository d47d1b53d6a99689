//! Exact non-negative rational numbers.
//!
//! Colorimetric quantities (hue, saturation, lightness, weights) are exact
//! rationals of small integers, so they are carried as explicit
//! numerator/denominator pairs and compared by cross-multiplication.

use vstd::prelude::*;

verus! {

/// An exact non-negative rational number `num / den`.
///
/// Values are not reduced to lowest terms; two values are equal as numbers
/// exactly when [`Ratio::eq_value`] holds.
#[derive(PartialEq, Eq, Structural, Clone, Copy, Debug, Hash)]
pub struct Ratio {
    pub num: u32,
    pub den: u32,
}

/// The product of two 32-bit values fits in 64 bits.
proof fn lemma_u32_mul_fits(a: u32, b: u32)
    by (nonlinear_arith)
    ensures
        a as int * b as int <= 0xffff_fffe_0000_0001,
        a as int * b as int >= 0,
{
}

impl Ratio {
    /// Well-formed: the denominator is positive.
    pub open spec fn wf(self) -> bool {
        self.den >= 1
    }

    /// `self <= other` as rational numbers.
    pub open spec fn le_spec(self, other: Ratio) -> bool {
        self.num * other.den <= other.num * self.den
    }

    /// `self < other` as rational numbers.
    pub open spec fn lt_spec(self, other: Ratio) -> bool {
        self.num * other.den < other.num * self.den
    }

    /// `self == other` as rational numbers.
    pub open spec fn eq_value_spec(self, other: Ratio) -> bool {
        self.num * other.den == other.num * self.den
    }

    /// Build the rational `num / den`.
    pub fn new(num: u32, den: u32) -> (r: Ratio)
        requires
            den >= 1,
        ensures
            r == (Ratio { num, den }),
            r.wf(),
    {
        Ratio { num, den }
    }

    /// The rational zero.
    pub fn zero() -> (r: Ratio)
        ensures
            r == (Ratio { num: 0, den: 1 }),
            r.wf(),
    {
        Ratio { num: 0, den: 1 }
    }

    /// Decide `self <= other` as rational numbers.
    pub fn le(&self, other: &Ratio) -> (r: bool)
        ensures
            r == self.le_spec(*other),
    {
        proof {
            lemma_u32_mul_fits(self.num, other.den);
            lemma_u32_mul_fits(other.num, self.den);
        }
        (self.num as u64) * (other.den as u64) <= (other.num as u64) * (self.den as u64)
    }

    /// Decide `self < other` as rational numbers.
    pub fn lt(&self, other: &Ratio) -> (r: bool)
        ensures
            r == self.lt_spec(*other),
    {
        proof {
            lemma_u32_mul_fits(self.num, other.den);
            lemma_u32_mul_fits(other.num, self.den);
        }
        (self.num as u64) * (other.den as u64) < (other.num as u64) * (self.den as u64)
    }

    /// Decide `self == other` as rational numbers.
    pub fn eq_value(&self, other: &Ratio) -> (r: bool)
        ensures
            r == self.eq_value_spec(*other),
    {
        proof {
            lemma_u32_mul_fits(self.num, other.den);
            lemma_u32_mul_fits(other.num, self.den);
        }
        (self.num as u64) * (other.den as u64) == (other.num as u64) * (self.den as u64)
    }
}

} // verus!
