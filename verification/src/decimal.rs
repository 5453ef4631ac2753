//! Arbitrary-precision decimal numbers.
//!
//! A [`Decimal`] stores an integer of any size together with a scale: the
//! number it stands for is the integer divided by ten to the power of the
//! scale. Its mathematical model is a [`DecimalView`], on which addition,
//! multiplication and the change of scale are defined exactly. The
//! arithmetic itself is carried out by `bigdecimal`; this module states what
//! each operation returns in terms of the model.

use bigdecimal::num_bigint::{BigInt, Sign};
use bigdecimal::BigDecimal;
use vstd::arithmetic::div_mod::{
    lemma_div_is_ordered, lemma_div_multiples_vanish, lemma_div_pos_is_pos,
};
use vstd::arithmetic::mul::{lemma_mul_is_commutative, lemma_mul_nonnegative};
use vstd::arithmetic::power::{lemma_pow0, lemma_pow_positive, pow};
use vstd::prelude::*;

verus! {

/// The largest distance from zero at which a scale is in range.
///
/// Scales between `-SCALE_LIMIT` and `SCALE_LIMIT` leave room for every sum
/// and difference of two scales, and for the digits a division adds, to fit
/// in an `i64`. Within these bounds only memory limits the numbers that can
/// be computed: bringing a number to a scale `n` digits larger makes it `n`
/// digits longer.
pub const SCALE_LIMIT: i64 = 0x2000_0000_0000_0000;

/// The mathematical model of a [`Decimal`]: the number
/// `unscaled / 10^scale`.
pub struct DecimalView {
    pub unscaled: int,
    pub scale: int,
}

/// The natural number written in base 2^32 by `limbs`, least significant
/// limb first.
pub open spec fn limbs_value(limbs: Seq<u32>) -> nat
    decreases limbs.len(),
{
    if limbs.len() == 0 {
        0
    } else {
        limbs[0] as nat + 0x1_0000_0000 * limbs_value(limbs.drop_first())
    }
}

/// The quotient of `a` by the positive `b`, rounded toward zero.
pub open spec fn div_toward_zero(a: int, b: int) -> int {
    if a >= 0 {
        a / b
    } else {
        -((-a) / b)
    }
}

impl DecimalView {
    /// The scale is within [`SCALE_LIMIT`] of zero.
    pub open spec fn scale_in_range(self) -> bool {
        -SCALE_LIMIT <= self.scale <= SCALE_LIMIT
    }

    /// The number is zero or positive.
    pub open spec fn non_negative(self) -> bool {
        self.unscaled >= 0
    }

    /// The exact product, at the sum of the two scales.
    pub open spec fn times(self, other: DecimalView) -> DecimalView {
        DecimalView { unscaled: self.unscaled * other.unscaled, scale: self.scale + other.scale }
    }

    /// The exact sum, at the larger of the two scales.
    pub open spec fn plus(self, other: DecimalView) -> DecimalView {
        if self.scale >= other.scale {
            DecimalView {
                unscaled: self.unscaled + other.unscaled * pow(
                    10,
                    (self.scale - other.scale) as nat,
                ),
                scale: self.scale,
            }
        } else {
            DecimalView {
                unscaled: self.unscaled * pow(10, (other.scale - self.scale) as nat)
                    + other.unscaled,
                scale: other.scale,
            }
        }
    }

    /// The same number at scale `scale`: exact when the scale grows, with
    /// the surplus digits cut off (rounding toward zero) when it shrinks.
    pub open spec fn with_scale(self, scale: int) -> DecimalView {
        if scale >= self.scale {
            DecimalView {
                unscaled: self.unscaled * pow(10, (scale - self.scale) as nat),
                scale,
            }
        } else {
            DecimalView {
                unscaled: div_toward_zero(self.unscaled, pow(10, (self.scale - scale) as nat)),
                scale,
            }
        }
    }
}

/// The product of two numbers that are not negative is not negative.
pub proof fn lemma_times_non_negative(a: DecimalView, b: DecimalView)
    requires
        a.non_negative(),
        b.non_negative(),
    ensures
        a.times(b).non_negative(),
{
    lemma_mul_nonnegative(a.unscaled, b.unscaled);
}

/// The sum of two numbers that are not negative is not negative.
pub proof fn lemma_plus_non_negative(a: DecimalView, b: DecimalView)
    requires
        a.non_negative(),
        b.non_negative(),
    ensures
        a.plus(b).non_negative(),
{
    if a.scale >= b.scale {
        let shift = pow(10, (a.scale - b.scale) as nat);
        lemma_pow_positive(10, (a.scale - b.scale) as nat);
        lemma_mul_nonnegative(b.unscaled, shift);
    } else {
        let shift = pow(10, (b.scale - a.scale) as nat);
        lemma_pow_positive(10, (b.scale - a.scale) as nat);
        lemma_mul_nonnegative(a.unscaled, shift);
    }
}

/// A number that is not negative stays so at any scale, and takes that
/// scale.
pub proof fn lemma_with_scale_non_negative(a: DecimalView, scale: int)
    requires
        a.non_negative(),
    ensures
        a.with_scale(scale).non_negative(),
        a.with_scale(scale).scale == scale,
{
    if scale >= a.scale {
        lemma_pow_positive(10, (scale - a.scale) as nat);
        lemma_mul_nonnegative(a.unscaled, pow(10, (scale - a.scale) as nat));
    } else {
        lemma_pow_positive(10, (a.scale - scale) as nat);
        lemma_div_pos_is_pos(a.unscaled, pow(10, (a.scale - scale) as nat));
    }
}

/// Adding a number that is not negative to a balance that is not negative
/// and cutting the sum to the scale of the balance does not lower the
/// balance.
pub proof fn lemma_sum_at_scale_not_below(balance: DecimalView, added: DecimalView)
    requires
        balance.non_negative(),
        added.non_negative(),
    ensures
        balance.plus(added).with_scale(balance.scale).scale == balance.scale,
        balance.plus(added).with_scale(balance.scale).unscaled >= balance.unscaled,
{
    if balance.scale >= added.scale {
        let shift = pow(10, (balance.scale - added.scale) as nat);
        lemma_pow_positive(10, (balance.scale - added.scale) as nat);
        lemma_mul_nonnegative(added.unscaled, shift);
        lemma_pow0(10);
    } else {
        let shift = pow(10, (added.scale - balance.scale) as nat);
        lemma_pow_positive(10, (added.scale - balance.scale) as nat);
        lemma_mul_nonnegative(balance.unscaled, shift);
        let whole = balance.unscaled * shift;
        lemma_mul_is_commutative(balance.unscaled, shift);
        lemma_div_multiples_vanish(balance.unscaled, shift);
        lemma_div_is_ordered(whole, whole + added.unscaled, shift);
    }
}

/// The quotient of a decimal by a whole number as `bigdecimal` computes it.
///
/// `bigdecimal` gives the digits of the quotient up to the precision it was
/// built with (100 digits unless configured otherwise) and rounds the last
/// of them where digits are left over. The digits are not spelled out here:
/// the quotient is only known to be the same for the same dividend and
/// divisor.
pub uninterp spec fn decimal_quotient(dividend: DecimalView, divisor: int) -> DecimalView;

/// An arbitrary-precision decimal number.
///
/// `magnitude` holds the absolute value of the unscaled integer in base
/// 2^32, least significant limb first; `negative` is its sign; the number is
/// the unscaled integer divided by `10^scale`.
#[derive(Debug)]
pub struct Decimal {
    pub negative: bool,
    pub magnitude: Vec<u32>,
    pub scale: i64,
}

impl View for Decimal {
    type V = DecimalView;

    open spec fn view(&self) -> DecimalView {
        DecimalView {
            unscaled: if self.negative {
                -(limbs_value(self.magnitude@) as int)
            } else {
                limbs_value(self.magnitude@) as int
            },
            scale: self.scale as int,
        }
    }
}

impl Clone for Decimal {
    fn clone(&self) -> (copy: Decimal)
        ensures
            copy@ == self@,
    {
        let magnitude = self.magnitude.clone();
        assert(magnitude@ =~= self.magnitude@);
        Decimal { negative: self.negative, magnitude, scale: self.scale }
    }
}

impl Decimal {
    /// The whole number `n`, at scale 0.
    pub fn from_u32(n: u32) -> (d: Decimal)
        ensures
            d@ == (DecimalView { unscaled: n as int, scale: 0 }),
    {
        let mut magnitude: Vec<u32> = Vec::new();
        magnitude.push(n);
        proof {
            assert(magnitude@.drop_first() =~= Seq::<u32>::empty());
            reveal_with_fuel(limbs_value, 2);
        }
        Decimal { negative: false, magnitude, scale: 0 }
    }

    /// Whether the scale is within [`SCALE_LIMIT`] of zero.
    pub fn scale_in_range(&self) -> (ok: bool)
        ensures
            ok == self@.scale_in_range(),
    {
        -SCALE_LIMIT <= self.scale && self.scale <= SCALE_LIMIT
    }
}

/// `a / divisor`, computed by `bigdecimal` as the division of a
/// `BigDecimal` by an `i32`.
///
/// Trusted, not proved: the result is [`decimal_quotient`] of the dividend
/// and the divisor, and it is not negative when the dividend is not. The
/// scale of the dividend has to be in range because the division counts the
/// scale up, once for every digit it adds.
#[verifier::external_body]
pub(crate) fn quotient(a: &Decimal, divisor: i32) -> (q: Decimal)
    requires
        a@.scale_in_range(),
        divisor > 0,
    ensures
        q@ == decimal_quotient(a@, divisor as int),
        a@.non_negative() ==> q@.non_negative(),
{
    let sign = if a.negative { Sign::Minus } else { Sign::Plus };
    let x = BigDecimal::new(BigInt::from_slice(sign, &a.magnitude), a.scale);
    let (unscaled, scale) = (x / divisor).into_bigint_and_exponent();
    let (sign, magnitude) = unscaled.to_u32_digits();
    Decimal { negative: sign == Sign::Minus, magnitude, scale }
}

/// `a * b`, computed by `bigdecimal` as the product of a `BigDecimal` and a
/// `&BigDecimal`.
///
/// Trusted, not proved: the product is exact; its unscaled integer is the
/// product of the two unscaled integers and its scale the sum of the two
/// scales, which has to fit in an `i64`.
#[verifier::external_body]
pub(crate) fn product(a: &Decimal, b: &Decimal) -> (p: Decimal)
    requires
        i64::MIN <= a@.scale + b@.scale <= i64::MAX,
    ensures
        p@ == a@.times(b@),
{
    let sign_a = if a.negative { Sign::Minus } else { Sign::Plus };
    let sign_b = if b.negative { Sign::Minus } else { Sign::Plus };
    let x = BigDecimal::new(BigInt::from_slice(sign_a, &a.magnitude), a.scale);
    let y = BigDecimal::new(BigInt::from_slice(sign_b, &b.magnitude), b.scale);
    let (unscaled, scale) = (x * &y).into_bigint_and_exponent();
    let (sign, magnitude) = unscaled.to_u32_digits();
    Decimal { negative: sign == Sign::Minus, magnitude, scale }
}

/// `a + b`, computed by `bigdecimal` as the sum of a `BigDecimal` and a
/// `&BigDecimal`.
///
/// Trusted, not proved: the sum is exact and has the larger of the two
/// scales; the number with the smaller scale is brought to the larger one
/// by appending zeros, and the unscaled integers are added. The difference
/// of the two scales has to fit in an `i64`.
#[verifier::external_body]
pub(crate) fn sum(a: &Decimal, b: &Decimal) -> (s: Decimal)
    requires
        a@.scale - b@.scale <= i64::MAX,
        b@.scale - a@.scale <= i64::MAX,
    ensures
        s@ == a@.plus(b@),
{
    let sign_a = if a.negative { Sign::Minus } else { Sign::Plus };
    let sign_b = if b.negative { Sign::Minus } else { Sign::Plus };
    let x = BigDecimal::new(BigInt::from_slice(sign_a, &a.magnitude), a.scale);
    let y = BigDecimal::new(BigInt::from_slice(sign_b, &b.magnitude), b.scale);
    let (unscaled, scale) = (x + &y).into_bigint_and_exponent();
    let (sign, magnitude) = unscaled.to_u32_digits();
    Decimal { negative: sign == Sign::Minus, magnitude, scale }
}

/// `a` at scale `scale`, computed by `bigdecimal`'s `BigDecimal::with_scale`.
///
/// Trusted, not proved: a larger scale appends zeros to the unscaled
/// integer; a smaller scale drops its last digits without rounding, so that
/// the number moves toward zero. The difference of the two scales has to
/// fit in an `i64`.
#[verifier::external_body]
pub(crate) fn rescale(a: &Decimal, scale: i64) -> (r: Decimal)
    requires
        scale - a@.scale <= i64::MAX,
        a@.scale - scale <= i64::MAX,
    ensures
        r@ == a@.with_scale(scale as int),
{
    let sign = if a.negative { Sign::Minus } else { Sign::Plus };
    let x = BigDecimal::new(BigInt::from_slice(sign, &a.magnitude), a.scale);
    let (unscaled, scale) = x.with_scale(scale).into_bigint_and_exponent();
    let (sign, magnitude) = unscaled.to_u32_digits();
    Decimal { negative: sign == Sign::Minus, magnitude, scale }
}

} // verus!
