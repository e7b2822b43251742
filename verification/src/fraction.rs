//! Exact readings: a ratio of two integers.

use vstd::prelude::*;

verus! {

/// The real number `num / den`.
pub open spec fn ratio(num: int, den: int) -> real {
    num as real / den as real
}

/// The exact number `num / den`.
#[derive(Clone, Copy, Debug, PartialEq, Eq, Structural)]
pub struct Fraction {
    /// The numerator.
    pub num: i128,
    /// The denominator.
    pub den: i128,
}

impl Fraction {
    /// A fraction denotes a number only over a positive denominator.
    pub open spec fn valid(self) -> bool {
        self.den > 0
    }

    /// The real number that the fraction denotes.
    pub open spec fn value(self) -> real {
        ratio(self.num as int, self.den as int)
    }
}

/// Ratios over one positive denominator are ordered as their numerators are.
pub proof fn lemma_ratio_order(a: int, b: int, den: int)
    requires
        den > 0,
    ensures
        a <= b <==> ratio(a, den) <= ratio(b, den),
        a < b <==> ratio(a, den) < ratio(b, den),
        a == b <==> ratio(a, den) == ratio(b, den),
{
    let x = a as real;
    let y = b as real;
    let d = den as real;
    assert(x <= y <==> x / d <= y / d) by (nonlinear_arith)
        requires
            d > 0 as real,
    ;
    assert(x < y <==> x / d < y / d) by (nonlinear_arith)
        requires
            d > 0 as real,
    ;
}

/// A numerator from 0 up to the denominator gives a ratio from 0 up to 1,
/// and the numerator 0 gives 0.
pub proof fn lemma_ratio_in_unit_interval(num: int, den: int)
    requires
        den > 0,
    ensures
        0 <= num < den <==> 0 as real <= ratio(num, den) < 1 as real,
        num == 0 <==> ratio(num, den) == 0 as real,
{
    let n = num as real;
    let d = den as real;
    assert(0 as real <= n < d <==> 0 as real <= n / d < 1 as real) by (nonlinear_arith)
        requires
            d > 0 as real,
    ;
    assert(n == 0 as real <==> n / d == 0 as real) by (nonlinear_arith)
        requires
            d > 0 as real,
    ;
}

/// A whole number of denominators in the numerator comes out of the ratio as that whole number.
pub proof fn lemma_ratio_whole_part(whole: int, part: int, den: int)
    requires
        den > 0,
    ensures
        ratio(whole * den + part, den) == whole as real + ratio(part, den),
{
    let w = whole as real;
    let p = part as real;
    let d = den as real;
    assert((whole * den + part) as real == w * d + p) by (nonlinear_arith)
        requires
            w == whole as real,
            p == part as real,
            d == den as real,
    ;
    assert((w * d + p) / d == w + p / d) by (nonlinear_arith)
        requires
            d > 0 as real,
    ;
}

/// The sum of two ratios over one denominator.
pub proof fn lemma_ratio_sum(a: int, b: int, den: int)
    requires
        den > 0,
    ensures
        ratio(a + b, den) == ratio(a, den) + ratio(b, den),
{
    let x = a as real;
    let y = b as real;
    let d = den as real;
    assert((x + y) / d == x / d + y / d) by (nonlinear_arith)
        requires
            d > 0 as real,
    ;
}

/// The difference of two ratios, over the product of their denominators.
pub proof fn lemma_ratio_difference(a: int, b: int, c: int, d: int)
    requires
        b > 0,
        d > 0,
    ensures
        b * d > 0,
        ratio(a * d - c * b, b * d) == ratio(a, b) - ratio(c, d),
{
    let ar = a as real;
    let br = b as real;
    let cr = c as real;
    let dr = d as real;
    assert(b * d > 0) by (nonlinear_arith)
        requires
            b > 0,
            d > 0,
    ;
    assert((a * d - c * b) as real == ar * dr - cr * br) by (nonlinear_arith)
        requires
            ar == a as real,
            br == b as real,
            cr == c as real,
            dr == d as real,
    ;
    assert((b * d) as real == br * dr) by (nonlinear_arith)
        requires
            br == b as real,
            dr == d as real,
    ;
    assert((ar * dr - cr * br) / (br * dr) == ar / br - cr / dr) by (nonlinear_arith)
        requires
            br > 0 as real,
            dr > 0 as real,
    ;
}

} // verus!
