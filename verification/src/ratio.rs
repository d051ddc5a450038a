//! Exact unsigned fractions, used wherever a threshold or a share is configured.

use vstd::prelude::*;

verus! {

/// A non-negative fraction `numerator / denominator`.
///
/// A ratio is *valid* when its denominator is positive. Comparisons are exact:
/// they cross-multiply in 128-bit arithmetic and never round.
#[derive(Clone, Copy, Debug, PartialEq, Eq, Structural)]
pub struct Ratio {
    pub numerator: u64,
    pub denominator: u64,
}

/// The product of two 64-bit values fits in 128 bits.
pub proof fn lemma_product_fits(a: int, b: int)
    requires
        0 <= a <= u64::MAX,
        0 <= b <= u64::MAX,
    ensures
        0 <= a * b <= u64::MAX * u64::MAX,
        a * b <= u128::MAX,
{
    assert(0 <= a * b <= u64::MAX * u64::MAX) by (nonlinear_arith)
        requires
            0 <= a <= u64::MAX,
            0 <= b <= u64::MAX,
    ;
}

impl Ratio {
    /// The denominator is positive.
    pub open spec fn valid(&self) -> bool {
        self.denominator > 0
    }

    /// The fraction lies in the half-open interval `(0, 1]`.
    pub open spec fn is_unit_fraction(&self) -> bool {
        0 < self.numerator <= self.denominator
    }

    /// `part / whole` is strictly greater than this ratio, by cross-multiplication.
    pub open spec fn exceeded_by(&self, part: int, whole: int) -> bool {
        part * self.denominator > self.numerator * whole
    }

    /// This ratio of `whole`, less `part`, rounded towards zero.
    pub open spec fn share_less(&self, whole: int, part: int) -> int {
        let scaled = whole * self.numerator - part * self.denominator;
        if scaled >= 0 {
            scaled / (self.denominator as int)
        } else {
            -((-scaled) / (self.denominator as int))
        }
    }

    pub fn new(numerator: u64, denominator: u64) -> (r: Ratio)
        ensures
            r.numerator == numerator,
            r.denominator == denominator,
    {
        Ratio { numerator, denominator }
    }

    /// Whether the fraction lies in `(0, 1]`.
    pub fn in_unit_interval(&self) -> (b: bool)
        ensures
            b == self.is_unit_fraction(),
    {
        0 < self.numerator && self.numerator <= self.denominator
    }

    /// Whether `part / whole` is strictly greater than this ratio.
    pub fn is_exceeded_by(&self, part: u64, whole: u64) -> (b: bool)
        ensures
            b == self.exceeded_by(part as int, whole as int),
    {
        proof {
            lemma_product_fits(part as int, self.denominator as int);
            lemma_product_fits(self.numerator as int, whole as int);
        }
        (part as u128) * (self.denominator as u128) > (self.numerator as u128) * (whole as u128)
    }

    /// This ratio of `whole`, less `part`, rounded towards zero: the sign
    /// (`true` for a negative amount) and the magnitude.
    pub fn signed_share_less(&self, whole: u64, part: u64) -> (r: (bool, u128))
        requires
            self.valid(),
        ensures
            r.0 == (self.share_less(whole as int, part as int) < 0),
            r.1 == if r.0 {
                -self.share_less(whole as int, part as int)
            } else {
                self.share_less(whole as int, part as int)
            },
    {
        proof {
            lemma_product_fits(whole as int, self.numerator as int);
            lemma_product_fits(part as int, self.denominator as int);
        }
        let gain: u128 = (whole as u128) * (self.numerator as u128);
        let loss: u128 = (part as u128) * (self.denominator as u128);
        if gain >= loss {
            (false, (gain - loss) / (self.denominator as u128))
        } else {
            let magnitude: u128 = (loss - gain) / (self.denominator as u128);
            (magnitude > 0, magnitude)
        }
    }
}

} // verus!
