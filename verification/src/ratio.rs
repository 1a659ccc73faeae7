//! An exact positive rational, used for aspect ratios.

use vstd::prelude::*;

verus! {

/// Largest numerator or denominator a [`Ratio`] may carry.
///
/// The grouping engine multiplies a ratio's parts with extents and weight
/// sums; this cap keeps every such product inside `i128`.
pub const MAX_RATIO_PART: i64 = 1_000_000;

/// An exact positive rational number `num / den`.
///
/// Aspect ratios are width-over-height by convention. Keeping the ratio as a
/// pair of integers lets the engine compare shapes by cross-multiplication,
/// with no rounding at all.
#[derive(Debug, PartialEq, Eq, Structural, Clone, Copy)]
pub struct Ratio {
    pub num: i64,
    pub den: i64,
}

impl Ratio {
    /// Both parts positive and small enough for the engine's products.
    pub open spec fn wf(&self) -> bool {
        &&& 1 <= self.num <= MAX_RATIO_PART
        &&& 1 <= self.den <= MAX_RATIO_PART
    }

    /// The same rational value, as `a/b == c/d <==> a*d == c*b`.
    pub open spec fn spec_eq(self, other: Ratio) -> bool {
        self.num * other.den == other.num * self.den
    }

    pub fn new(num: i64, den: i64) -> (r: Self)
        ensures
            r.num == num,
            r.den == den,
    {
        Ratio { num, den }
    }

    /// The reciprocal `den / num`.
    pub fn reciprocal(&self) -> (r: Self)
        ensures
            r.num == self.den,
            r.den == self.num,
    {
        Ratio { num: self.den, den: self.num }
    }

    /// Whether this ratio and `other` denote the same rational value.
    pub fn same_value(&self, other: &Ratio) -> (r: bool)
        requires
            self.wf(),
            other.wf(),
        ensures
            r == self.spec_eq(*other),
    {
        proof {
            vstd::arithmetic::mul::lemma_mul_upper_bound(
                self.num as int, MAX_RATIO_PART as int, other.den as int, MAX_RATIO_PART as int);
            vstd::arithmetic::mul::lemma_mul_upper_bound(
                other.num as int, MAX_RATIO_PART as int, self.den as int, MAX_RATIO_PART as int);
            vstd::arithmetic::mul::lemma_mul_nonnegative(self.num as int, other.den as int);
            vstd::arithmetic::mul::lemma_mul_nonnegative(other.num as int, self.den as int);
        }
        (self.num as i128) * (other.den as i128) == (other.num as i128) * (self.den as i128)
    }
}

} // verus!
