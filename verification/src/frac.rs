//! Exact fractions over machine integers.
//!
//! Scroll progress, easing and range mapping are all ratios of pixel
//! measurements. Floating point cannot carry proofs, so the engine computes
//! with exact fractions: a numerator and a positive denominator. Two
//! fractions are compared by cross-multiplication, which stays well inside
//! `i128` as long as both operands are `bounded` by [`FRAC_BOUND`].

use vstd::prelude::*;

verus! {

/// Magnitude bound under which every fraction operation in this crate is
/// free of overflow (comparisons multiply two components, easing cubes
/// them; see the callers' `requires`).
pub const FRAC_BOUND: i128 = 0x40_0000_0000;

/// An exact fraction `num / den`. The denominator is kept positive, so the
/// order of two fractions is the order of their cross products.
#[derive(Clone, Copy, Debug, PartialEq, Eq, Structural)]
pub struct Frac {
    pub num: i128,
    pub den: i128,
}

/// A mathematical fraction: a pair of unbounded integers, denominator
/// positive. Contracts speak of these pairs.
pub open spec fn ratio_wf(x: (int, int)) -> bool {
    x.1 >= 1
}

/// `x <= y` as rationals, both with positive denominators.
pub open spec fn ratio_le(x: (int, int), y: (int, int)) -> bool {
    x.0 * y.1 <= y.0 * x.1
}

/// `x < y` as rationals, both with positive denominators.
pub open spec fn ratio_lt(x: (int, int), y: (int, int)) -> bool {
    x.0 * y.1 < y.0 * x.1
}

/// `x == y` as rationals, both with positive denominators.
pub open spec fn ratio_eq(x: (int, int), y: (int, int)) -> bool {
    x.0 * y.1 == y.0 * x.1
}

impl Frac {
    /// The denominator is positive.
    pub open spec fn wf(self) -> bool {
        self.den >= 1
    }

    /// Both components have magnitude at most `b`.
    pub open spec fn bounded(self, b: int) -> bool {
        &&& -b <= self.num <= b
        &&& self.den <= b
    }

    /// The mathematical fraction this value carries.
    pub open spec fn pair(self) -> (int, int) {
        (self.num as int, self.den as int)
    }

    /// `self` represents the rational `n / d` (for positive `d`).
    pub open spec fn is_ratio(self, n: int, d: int) -> bool {
        self.num * d == n * self.den
    }

    pub fn new(num: i64, den: i64) -> (r: Frac)
        requires
            den >= 1,
        ensures
            r.num == num,
            r.den == den,
    {
        Frac { num: num as i128, den: den as i128 }
    }

    /// Whether `self <= other` as rationals.
    pub fn le(&self, other: &Frac) -> (r: bool)
        requires
            self.wf(),
            other.wf(),
            self.bounded(FRAC_BOUND as int),
            other.bounded(FRAC_BOUND as int),
        ensures
            r == ratio_le(self.pair(), other.pair()),
    {
        proof {
            lemma_mul_bound(self.num as int, other.den as int, FRAC_BOUND as int, FRAC_BOUND as int);
            lemma_mul_bound(other.num as int, self.den as int, FRAC_BOUND as int, FRAC_BOUND as int);
        }
        self.num * other.den <= other.num * self.den
    }

    /// Whether `self < other` as rationals.
    pub fn lt(&self, other: &Frac) -> (r: bool)
        requires
            self.wf(),
            other.wf(),
            self.bounded(FRAC_BOUND as int),
            other.bounded(FRAC_BOUND as int),
        ensures
            r == ratio_lt(self.pair(), other.pair()),
    {
        proof {
            lemma_mul_bound(self.num as int, other.den as int, FRAC_BOUND as int, FRAC_BOUND as int);
            lemma_mul_bound(other.num as int, self.den as int, FRAC_BOUND as int, FRAC_BOUND as int);
        }
        self.num * other.den < other.num * self.den
    }
}

/// `|a| <= m` and `|b| <= n` bound the product `a * b` by `m * n`.
pub proof fn lemma_mul_bound(a: int, b: int, m: int, n: int) by (nonlinear_arith)
    requires
        -m <= a <= m,
        -n <= b <= n,
        0 <= m,
        0 <= n,
    ensures
        -(m * n) <= a * b <= m * n,
{
}

} // verus!
