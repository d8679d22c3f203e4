//! Exact decimal numbers: a 96-bit signed mantissa and a scale of at most 28
//! decimal places.
//!
//! The arithmetic itself is that of the `rust_decimal` crate. Each of its
//! operations is reached through one trusted wrapper over the plain mantissa
//! and scale; everything above those wrappers is verified.
//!
//! The view `d@` is the number itself as an integer count of 10^-28, so that
//! comparing two decimals is comparing two integers.

use core::cmp::Ordering;
use vstd::prelude::*;
use vstd::std_specs::cmp::{PartialEqSpecImpl, PartialOrdSpecImpl};
use vstd::std_specs::convert::FromSpecImpl;

verus! {

/// The largest mantissa, 2^96 - 1.
pub const MAX_MANTISSA: i128 = 79_228_162_514_264_337_593_543_950_335;

/// The largest number of decimal places.
pub const MAX_SCALE: u32 = 28;

/// Ten to the power `n`.
pub open spec fn pow10(n: int) -> int
    decreases n,
{
    if n <= 0 {
        1
    } else {
        10 * pow10(n - 1)
    }
}

/// The parts that a decimal can have.
pub open spec fn representable(mantissa: int, scale: int) -> bool {
    -MAX_MANTISSA <= mantissa <= MAX_MANTISSA && 0 <= scale <= MAX_SCALE
}

/// The number with these parts, in units of 10^-28.
pub open spec fn scaled_value(mantissa: int, scale: int) -> int {
    mantissa * pow10(MAX_SCALE - scale)
}

/// The parts of a result as mathematical integers.
pub open spec fn parts_of(result: Option<(i128, u32)>) -> Option<(int, int)> {
    match result {
        Some(parts) => Some((parts.0 as int, parts.1 as int)),
        None => None,
    }
}

/// The mantissa of a decimal once it is written with `scale` places.
pub open spec fn aligned(mantissa: int, own_scale: int, scale: int) -> int {
    mantissa * pow10(scale - own_scale)
}

/// The larger of two scales.
pub open spec fn wider(a_scale: int, b_scale: int) -> int {
    if a_scale < b_scale {
        b_scale
    } else {
        a_scale
    }
}

/// Two mantissas of at most 64 bits whose scales lie at most 19 places apart.
pub open spec fn narrow(a_mantissa: int, a_scale: int, b_mantissa: int, b_scale: int) -> bool {
    &&& -0x1_0000_0000_0000_0000 < a_mantissa < 0x1_0000_0000_0000_0000
    &&& -0x1_0000_0000_0000_0000 < b_mantissa < 0x1_0000_0000_0000_0000
    &&& -19 <= a_scale - b_scale <= 19
}

/// Half of `divisor` rounds to the even quotient, more than half rounds away
/// from zero; `mantissa` may have either sign.
pub open spec fn half_even(mantissa: int, divisor: int) -> int {
    let magnitude = if mantissa < 0 {
        -mantissa
    } else {
        mantissa
    };
    let quotient = magnitude / divisor;
    let twice = 2 * (magnitude % divisor);
    let rounded = if twice > divisor || (twice == divisor && quotient % 2 == 1) {
        quotient + 1
    } else {
        quotient
    };
    if mantissa < 0 {
        -rounded
    } else {
        rounded
    }
}

/// The mantissa over `divisor`, rounded toward zero.
pub open spec fn truncated(mantissa: int, divisor: int) -> int {
    if mantissa < 0 {
        -((-mantissa) / divisor)
    } else {
        mantissa / divisor
    }
}

/// The magnitude of a number.
pub open spec fn magnitude(n: int) -> int {
    if n < 0 {
        -n
    } else {
        n
    }
}

/// Whether the quotient of two numbers, rounded to the nearest whole one where it is that
/// large, is within the largest decimal.
pub open spec fn quotient_fits(dividend: int, divisor: int) -> bool {
    2 * magnitude(dividend) < magnitude(divisor) * (2 * MAX_MANTISSA + 1)
}

/// Whether `result` is what rounding the quotient of `dividend` by a positive `divisor`
/// gives, all three in units of 10^-28: every decimal on one side of the exact quotient is
/// on that side of `result` too, and `result` is off by at most half a unit in the 28th
/// decimal place or in the 28th digit.
#[verifier::opaque]
pub open spec fn rounds_quotient(dividend: int, divisor: int, result: int) -> bool {
    &&& forall|mantissa: int, scale: int|
        representable(mantissa, scale) && #[trigger] scaled_value(mantissa, scale) * divisor
            <= dividend * pow10(28) ==> scaled_value(mantissa, scale) <= result
    &&& forall|mantissa: int, scale: int|
        representable(mantissa, scale) && #[trigger] scaled_value(mantissa, scale) * divisor
            >= dividend * pow10(28) ==> scaled_value(mantissa, scale) >= result
    &&& 2 * magnitude(result * divisor - dividend * pow10(28)) * pow10(27) <= divisor * (magnitude(
        result,
    ) + pow10(27))
}

/// What `rust_decimal::Decimal::checked_add` returns on two decimals given by
/// their parts, as parts again.
pub uninterp spec fn decimal_sum(
    a_mantissa: int,
    a_scale: int,
    b_mantissa: int,
    b_scale: int,
) -> Option<(int, int)>;

/// What `rust_decimal::Decimal::checked_sub` returns, by parts.
pub uninterp spec fn decimal_difference(
    a_mantissa: int,
    a_scale: int,
    b_mantissa: int,
    b_scale: int,
) -> Option<(int, int)>;

/// What `rust_decimal::Decimal::checked_mul` returns, by parts.
pub uninterp spec fn decimal_product(
    a_mantissa: int,
    a_scale: int,
    b_mantissa: int,
    b_scale: int,
) -> Option<(int, int)>;

/// What `rust_decimal::Decimal::checked_div` returns, by parts.
pub uninterp spec fn decimal_quotient(
    a_mantissa: int,
    a_scale: int,
    b_mantissa: int,
    b_scale: int,
) -> Option<(int, int)>;

/// Calls `rust_decimal::Decimal::checked_add`.
///
/// Believed: the result depends on the four parts alone and has parts in range;
/// adding to or from zero gives the other operand back; where both mantissas
/// have at most 64 bits, the scales are at most 19 apart and the sum written at
/// the larger scale fits 96 bits, the result is that sum. Other sums are rounded
/// to the longest mantissa that fits; of those it is only said that the sum of two
/// numbers that are not negative is not below either.
#[verifier::external_body]
fn outside_sum(a_mantissa: i128, a_scale: u32, b_mantissa: i128, b_scale: u32) -> (result: Option<
    (i128, u32),
>)
    requires
        representable(a_mantissa as int, a_scale as int),
        representable(b_mantissa as int, b_scale as int),
    ensures
        parts_of(result) == decimal_sum(
            a_mantissa as int,
            a_scale as int,
            b_mantissa as int,
            b_scale as int,
        ),
        result matches Some(d) ==> representable(d.0 as int, d.1 as int),
        a_mantissa == 0 ==> result == Some((b_mantissa, b_scale)),
        a_mantissa != 0 && b_mantissa == 0 ==> result == Some((a_mantissa, a_scale)),
        ({
            let scale = wider(a_scale as int, b_scale as int);
            let sum = aligned(a_mantissa as int, a_scale as int, scale) + aligned(
                b_mantissa as int,
                b_scale as int,
                scale,
            );
            a_mantissa != 0 && b_mantissa != 0 && narrow(
                a_mantissa as int,
                a_scale as int,
                b_mantissa as int,
                b_scale as int,
            ) && representable(sum, scale) ==> parts_of(result) == Some((sum, scale))
        }),
        result is Some && a_mantissa >= 0 && b_mantissa >= 0 ==> scaled_value(
            a_mantissa as int,
            a_scale as int,
        ) <= scaled_value((result->0).0 as int, (result->0).1 as int),
        result is Some && a_mantissa >= 0 && b_mantissa >= 0 ==> scaled_value(
            b_mantissa as int,
            b_scale as int,
        ) <= scaled_value((result->0).0 as int, (result->0).1 as int),
{
    let a = rust_decimal::Decimal::from_i128_with_scale(a_mantissa, a_scale);
    let b = rust_decimal::Decimal::from_i128_with_scale(b_mantissa, b_scale);
    a.checked_add(b).map(|d| (d.mantissa(), d.scale()))
}

/// Calls `rust_decimal::Decimal::checked_sub`.
///
/// Believed: as for the sum, with the second operand's sign turned. Of a difference
/// that is rounded it is only said that taking away what is not negative from what is
/// not negative gives no more than there was, and nothing negative where there was
/// enough; and that taking away what is not positive gives no less than there was.
#[verifier::external_body]
fn outside_difference(a_mantissa: i128, a_scale: u32, b_mantissa: i128, b_scale: u32) -> (result:
    Option<(i128, u32)>)
    requires
        representable(a_mantissa as int, a_scale as int),
        representable(b_mantissa as int, b_scale as int),
    ensures
        parts_of(result) == decimal_difference(
            a_mantissa as int,
            a_scale as int,
            b_mantissa as int,
            b_scale as int,
        ),
        result matches Some(d) ==> representable(d.0 as int, d.1 as int),
        a_mantissa == 0 ==> parts_of(result) == Some((-b_mantissa as int, b_scale as int)),
        a_mantissa != 0 && b_mantissa == 0 ==> result == Some((a_mantissa, a_scale)),
        ({
            let scale = wider(a_scale as int, b_scale as int);
            let difference = aligned(a_mantissa as int, a_scale as int, scale) - aligned(
                b_mantissa as int,
                b_scale as int,
                scale,
            );
            a_mantissa != 0 && b_mantissa != 0 && narrow(
                a_mantissa as int,
                a_scale as int,
                b_mantissa as int,
                b_scale as int,
            ) && representable(difference, scale) ==> parts_of(result) == Some((difference, scale))
        }),
        result is Some && a_mantissa >= 0 && b_mantissa >= 0 ==> scaled_value(
            (result->0).0 as int,
            (result->0).1 as int,
        ) <= scaled_value(a_mantissa as int, a_scale as int),
        result is Some && b_mantissa >= 0 && scaled_value(a_mantissa as int, a_scale as int)
            >= scaled_value(b_mantissa as int, b_scale as int) ==> (result->0).0 >= 0,
        result is Some && a_mantissa >= 0 && b_mantissa <= 0 ==> scaled_value(
            (result->0).0 as int,
            (result->0).1 as int,
        ) >= scaled_value(a_mantissa as int, a_scale as int),
{
    let a = rust_decimal::Decimal::from_i128_with_scale(a_mantissa, a_scale);
    let b = rust_decimal::Decimal::from_i128_with_scale(b_mantissa, b_scale);
    a.checked_sub(b).map(|d| (d.mantissa(), d.scale()))
}

/// Calls `rust_decimal::Decimal::checked_mul`.
///
/// Believed: the result depends on the four parts alone and has parts in range;
/// a zero factor gives zero; where the product of the mantissas fits 96 bits and
/// the scales add up to at most 28, the result is that product at that scale.
/// Other products are rounded to the longest mantissa that fits; of those it is only
/// said that the sign is right, that a factor of at least one does not make a number
/// that is not negative smaller, and that a factor of at most one does not make it
/// larger.
#[verifier::external_body]
fn outside_product(a_mantissa: i128, a_scale: u32, b_mantissa: i128, b_scale: u32) -> (result:
    Option<(i128, u32)>)
    requires
        representable(a_mantissa as int, a_scale as int),
        representable(b_mantissa as int, b_scale as int),
    ensures
        parts_of(result) == decimal_product(
            a_mantissa as int,
            a_scale as int,
            b_mantissa as int,
            b_scale as int,
        ),
        result matches Some(d) ==> representable(d.0 as int, d.1 as int),
        a_mantissa == 0 || b_mantissa == 0 ==> result == Some((0i128, 0u32)),
        a_mantissa != 0 && b_mantissa != 0 && representable(
            a_mantissa * b_mantissa,
            a_scale + b_scale,
        ) ==> parts_of(result) == Some((a_mantissa * b_mantissa, a_scale + b_scale)),
        result is Some && a_mantissa >= 0 && b_mantissa >= 0 ==> (result->0).0 >= 0,
        result is Some && a_mantissa >= 0 && b_mantissa <= 0 ==> (result->0).0 <= 0,
        result is Some && a_mantissa <= 0 && b_mantissa >= 0 ==> (result->0).0 <= 0,
        result is Some && a_mantissa >= 0 && scaled_value(b_mantissa as int, b_scale as int)
            >= pow10(28) ==> scaled_value((result->0).0 as int, (result->0).1 as int)
            >= scaled_value(a_mantissa as int, a_scale as int),
        result is Some && a_mantissa >= 0 && scaled_value(b_mantissa as int, b_scale as int)
            <= pow10(28) ==> scaled_value((result->0).0 as int, (result->0).1 as int)
            <= scaled_value(a_mantissa as int, a_scale as int),
{
    let a = rust_decimal::Decimal::from_i128_with_scale(a_mantissa, a_scale);
    let b = rust_decimal::Decimal::from_i128_with_scale(b_mantissa, b_scale);
    a.checked_mul(b).map(|d| (d.mantissa(), d.scale()))
}

/// Calls `rust_decimal::Decimal::checked_div`.
///
/// Believed: the result depends on the four parts alone and has parts in range; a zero
/// divisor gives `None`, and zero over anything else gives zero; any other quotient is
/// `None` exactly where it would round past the largest decimal. It is rounded to the
/// nearest at the most places that fit, so that no decimal lies between the exact quotient
/// and the result, and an exact quotient that is a decimal is the result. A negative
/// divisor turns the sign of the dividend.
#[verifier::external_body]
fn outside_quotient(a_mantissa: i128, a_scale: u32, b_mantissa: i128, b_scale: u32) -> (result:
    Option<(i128, u32)>)
    requires
        representable(a_mantissa as int, a_scale as int),
        representable(b_mantissa as int, b_scale as int),
    ensures
        parts_of(result) == decimal_quotient(
            a_mantissa as int,
            a_scale as int,
            b_mantissa as int,
            b_scale as int,
        ),
        result matches Some(d) ==> representable(d.0 as int, d.1 as int),
        b_mantissa == 0 ==> result is None,
        b_mantissa != 0 && a_mantissa == 0 ==> result == Some((0i128, 0u32)),
        b_mantissa != 0 ==> result is Some == quotient_fits(
            scaled_value(a_mantissa as int, a_scale as int),
            scaled_value(b_mantissa as int, b_scale as int),
        ),
        result is Some && b_mantissa > 0 ==> rounds_quotient(
            scaled_value(a_mantissa as int, a_scale as int),
            scaled_value(b_mantissa as int, b_scale as int),
            scaled_value((result->0).0 as int, (result->0).1 as int),
        ),
        result is Some && b_mantissa < 0 ==> rounds_quotient(
            -scaled_value(a_mantissa as int, a_scale as int),
            -scaled_value(b_mantissa as int, b_scale as int),
            scaled_value((result->0).0 as int, (result->0).1 as int),
        ),
{
    let a = rust_decimal::Decimal::from_i128_with_scale(a_mantissa, a_scale);
    let b = rust_decimal::Decimal::from_i128_with_scale(b_mantissa, b_scale);
    a.checked_div(b).map(|d| (d.mantissa(), d.scale()))
}

/// Calls `<` on two `rust_decimal::Decimal` values.
///
/// Believed: the comparison is that of the numbers, whatever their scales.
#[verifier::external_body]
fn outside_less(a_mantissa: i128, a_scale: u32, b_mantissa: i128, b_scale: u32) -> (result: bool)
    requires
        representable(a_mantissa as int, a_scale as int),
        representable(b_mantissa as int, b_scale as int),
    ensures
        result == (scaled_value(a_mantissa as int, a_scale as int) < scaled_value(
            b_mantissa as int,
            b_scale as int,
        )),
{
    let a = rust_decimal::Decimal::from_i128_with_scale(a_mantissa, a_scale);
    let b = rust_decimal::Decimal::from_i128_with_scale(b_mantissa, b_scale);
    a < b
}

/// Calls `rust_decimal::Decimal::floor`.
///
/// Believed: the result is the largest whole number not above the operand, with
/// scale 0.
#[verifier::external_body]
fn outside_floor(mantissa: i128, scale: u32) -> (result: (i128, u32))
    requires
        representable(mantissa as int, scale as int),
    ensures
        result.0 == mantissa as int / pow10(scale as int),
        result.1 == 0,
        representable(result.0 as int, result.1 as int),
{
    let d = rust_decimal::Decimal::from_i128_with_scale(mantissa, scale).floor();
    (d.mantissa(), d.scale())
}

/// Calls `rust_decimal::Decimal::ceil`.
///
/// Believed: the result is the smallest whole number not below the operand, with
/// scale 0.
#[verifier::external_body]
fn outside_ceil(mantissa: i128, scale: u32) -> (result: (i128, u32))
    requires
        representable(mantissa as int, scale as int),
    ensures
        result.0 == -((-mantissa) / pow10(scale as int)),
        result.1 == 0,
        representable(result.0 as int, result.1 as int),
{
    let d = rust_decimal::Decimal::from_i128_with_scale(mantissa, scale).ceil();
    (d.mantissa(), d.scale())
}

/// Calls `rust_decimal::Decimal::round_dp`.
///
/// Believed: an operand with at most `places` decimal places comes back as it
/// is; any other is rounded half to even at `places`.
#[verifier::external_body]
fn outside_round_dp(mantissa: i128, scale: u32, places: u32) -> (result: (i128, u32))
    requires
        representable(mantissa as int, scale as int),
    ensures
        scale <= places ==> result == (mantissa, scale),
        scale > places ==> result.0 == half_even(mantissa as int, pow10(scale - places)) && result.1
            == places,
        representable(result.0 as int, result.1 as int),
{
    let d = rust_decimal::Decimal::from_i128_with_scale(mantissa, scale).round_dp(places);
    (d.mantissa(), d.scale())
}

/// Calls `to_i64` of `rust_decimal`'s `ToPrimitive` impl.
///
/// Believed: the number is cut to its whole part; the result is that part where
/// an `i64` can hold it.
#[verifier::external_body]
fn outside_to_i64(mantissa: i128, scale: u32) -> (result: Option<i64>)
    requires
        representable(mantissa as int, scale as int),
    ensures
        i64::MIN <= truncated(mantissa as int, pow10(scale as int)) <= i64::MAX ==> result == Some(
            truncated(mantissa as int, pow10(scale as int)) as i64,
        ),
        !(i64::MIN <= truncated(mantissa as int, pow10(scale as int)) <= i64::MAX)
            ==> result is None,
{
    let d = rust_decimal::Decimal::from_i128_with_scale(mantissa, scale);
    rust_decimal::prelude::ToPrimitive::to_i64(&d)
}

/// Calls `to_u32` of `rust_decimal`'s `ToPrimitive` impl.
///
/// Believed: a negative number gives `None`; any other is cut to its whole part,
/// which is the result where a `u32` can hold it.
#[verifier::external_body]
fn outside_to_u32(mantissa: i128, scale: u32) -> (result: Option<u32>)
    requires
        representable(mantissa as int, scale as int),
    ensures
        mantissa >= 0 && mantissa as int / pow10(scale as int) <= u32::MAX ==> result == Some(
            (mantissa as int / pow10(scale as int)) as u32,
        ),
        !(mantissa >= 0 && mantissa as int / pow10(scale as int) <= u32::MAX) ==> result is None,
{
    let d = rust_decimal::Decimal::from_i128_with_scale(mantissa, scale);
    rust_decimal::prelude::ToPrimitive::to_u32(&d)
}

/// The parts without trailing zeros behind the decimal point; those of zero are zero.
pub open spec fn stripped(mantissa: int, scale: int) -> (int, int)
    decreases scale,
{
    if mantissa == 0 {
        (0, 0)
    } else if scale > 0 && mantissa % 10 == 0 {
        stripped(mantissa / 10, scale - 1)
    } else {
        (mantissa, scale)
    }
}

/// The character of a decimal digit.
pub open spec fn digit(n: int) -> char {
    ('0' as int + n) as char
}

/// A number that is not negative in decimal digits, without leading zeros.
pub open spec fn digits(n: int) -> Seq<char>
    decreases n,
{
    if n < 10 {
        seq![digit(n)]
    } else {
        digits(n / 10).push(digit(n % 10))
    }
}

/// The last `width` decimal digits of a number that is not negative.
pub open spec fn last_digits(n: int, width: int) -> Seq<char>
    decreases width,
{
    if width <= 0 {
        Seq::empty()
    } else {
        last_digits(n / 10, width - 1).push(digit(n % 10))
    }
}

/// A decimal as text: a minus sign where it is negative, the whole part, and as many
/// digits behind a point as the scale says.
pub open spec fn decimal_text(mantissa: int, scale: int) -> Seq<char> {
    let magnitude = if mantissa < 0 {
        -mantissa
    } else {
        mantissa
    };
    let sign = if mantissa < 0 {
        seq!['-']
    } else {
        Seq::empty()
    };
    let whole_part = digits(magnitude / pow10(scale));
    if scale <= 0 {
        sign + whole_part
    } else {
        sign + whole_part + seq!['.'] + last_digits(magnitude, scale)
    }
}

/// Calls `rust_decimal::Decimal::normalize`.
///
/// Believed: trailing zeros behind the decimal point are stripped; zero comes back
/// with scale 0.
#[verifier::external_body]
fn outside_normalize(mantissa: i128, scale: u32) -> (result: (i128, u32))
    requires
        representable(mantissa as int, scale as int),
    ensures
        (result.0 as int, result.1 as int) == stripped(mantissa as int, scale as int),
        representable(result.0 as int, result.1 as int),
{
    let d = rust_decimal::Decimal::from_i128_with_scale(mantissa, scale).normalize();
    (d.mantissa(), d.scale())
}

/// Calls `to_string` of `rust_decimal`'s `Display` impl.
///
/// Believed: the text is the plain decimal notation with every digit of the scale.
#[verifier::external_body]
fn outside_text(mantissa: i128, scale: u32) -> (result: String)
    requires
        representable(mantissa as int, scale as int),
    ensures
        result@ == decimal_text(mantissa as int, scale as int),
{
    rust_decimal::Decimal::from_i128_with_scale(mantissa, scale).to_string()
}

/// Calls `to_string` of `u32`.
///
/// Believed: the text is the number in decimal digits.
#[verifier::external_body]
pub(crate) fn count_text(n: u32) -> (result: String)
    ensures
        result@ == digits(n as int),
{
    n.to_string()
}

/// A decimal number. Its parts always satisfy [`representable`].
#[derive(Clone, Copy, Debug, Eq)]
pub struct Decimal {
    mantissa: i128,
    scale: u32,
}

impl View for Decimal {
    type V = int;

    closed spec fn view(&self) -> int {
        scaled_value(self.mantissa as int, self.scale as int)
    }
}

/// The decimal with these parts.
pub closed spec fn decimal(mantissa: int, scale: int) -> Decimal {
    Decimal { mantissa: mantissa as i128, scale: scale as u32 }
}

/// The mantissa of a decimal.
pub closed spec fn mantissa_of(d: Decimal) -> int {
    d.mantissa as int
}

/// The number of decimal places that a decimal is written with.
pub closed spec fn scale_of(d: Decimal) -> int {
    d.scale as int
}

/// A whole number as a decimal.
pub open spec fn whole(n: int) -> Decimal {
    decimal(n, 0)
}

spec fn from_parts(parts: Option<(int, int)>) -> Option<Decimal> {
    match parts {
        Some(p) => Some(decimal(p.0, p.1)),
        None => None,
    }
}

/// The sum, or `None` where it cannot be represented.
pub closed spec fn sum(a: Decimal, b: Decimal) -> Option<Decimal> {
    from_parts(decimal_sum(a.mantissa as int, a.scale as int, b.mantissa as int, b.scale as int))
}

/// The difference, or `None` where it cannot be represented.
pub closed spec fn difference(a: Decimal, b: Decimal) -> Option<Decimal> {
    from_parts(
        decimal_difference(a.mantissa as int, a.scale as int, b.mantissa as int, b.scale as int),
    )
}

/// The product, or `None` where it cannot be represented.
pub closed spec fn product(a: Decimal, b: Decimal) -> Option<Decimal> {
    from_parts(
        decimal_product(a.mantissa as int, a.scale as int, b.mantissa as int, b.scale as int),
    )
}

/// The quotient, or `None` for a zero divisor or where it cannot be represented.
pub closed spec fn quotient(a: Decimal, b: Decimal) -> Option<Decimal> {
    from_parts(
        decimal_quotient(a.mantissa as int, a.scale as int, b.mantissa as int, b.scale as int),
    )
}

/// Whether `a + b` is represented without rounding.
pub open spec fn exact_sum(a: Decimal, b: Decimal) -> bool {
    sum(a, b) is Some && sum(a, b)->0@ == a@ + b@
}

/// Whether `a - b` is represented without rounding.
pub open spec fn exact_difference(a: Decimal, b: Decimal) -> bool {
    difference(a, b) is Some && difference(a, b)->0@ == a@ - b@
}

/// Whether `a x b` is represented without rounding.
pub open spec fn exact_product(a: Decimal, b: Decimal) -> bool {
    product(a, b) is Some && product(a, b)->0@ * pow10(28) == a@ * b@
}

/// Whether `a / b` is represented without rounding.
pub open spec fn exact_quotient(a: Decimal, b: Decimal) -> bool {
    b@ != 0 && quotient(a, b) is Some && quotient(a, b)->0@ * b@ == a@ * pow10(28)
}

/// `a + b` on operands that may themselves be missing.
pub open spec fn plus(a: Option<Decimal>, b: Option<Decimal>) -> Option<Decimal> {
    match (a, b) {
        (Some(x), Some(y)) => sum(x, y),
        _ => None,
    }
}

/// `a - b` on operands that may themselves be missing.
pub open spec fn minus(a: Option<Decimal>, b: Option<Decimal>) -> Option<Decimal> {
    match (a, b) {
        (Some(x), Some(y)) => difference(x, y),
        _ => None,
    }
}

/// `a x b` on operands that may themselves be missing.
pub open spec fn times(a: Option<Decimal>, b: Option<Decimal>) -> Option<Decimal> {
    match (a, b) {
        (Some(x), Some(y)) => product(x, y),
        _ => None,
    }
}

/// `a / b` on operands that may themselves be missing.
pub open spec fn over(a: Option<Decimal>, b: Option<Decimal>) -> Option<Decimal> {
    match (a, b) {
        (Some(x), Some(y)) => quotient(x, y),
        _ => None,
    }
}

/// The number with its sign turned.
pub closed spec fn negated(a: Decimal) -> Decimal {
    decimal(-a.mantissa, a.scale as int)
}

/// The number without its sign.
pub closed spec fn absolute(a: Decimal) -> Decimal {
    if a.mantissa < 0 {
        negated(a)
    } else {
        a
    }
}

/// The smaller number, the first of two equal ones.
pub open spec fn lesser(a: Decimal, b: Decimal) -> Decimal {
    if a@ > b@ {
        b
    } else {
        a
    }
}

/// The larger number, the first of two equal ones.
pub open spec fn greater(a: Decimal, b: Decimal) -> Decimal {
    if a@ < b@ {
        b
    } else {
        a
    }
}

/// The largest whole number not above `a`, as an integer.
pub closed spec fn floor_int(a: Decimal) -> int {
    a.mantissa as int / pow10(a.scale as int)
}

/// The largest whole number not above `a`.
pub open spec fn floor_of(a: Decimal) -> Decimal {
    whole(floor_int(a))
}

/// The smallest whole number not below `a`, as an integer.
pub closed spec fn ceil_int(a: Decimal) -> int {
    -((-a.mantissa) / pow10(a.scale as int))
}

/// The smallest whole number not below `a`.
pub open spec fn ceil_of(a: Decimal) -> Decimal {
    whole(ceil_int(a))
}

/// `a` rounded half to even at `places` decimal places.
pub closed spec fn rounded(a: Decimal, places: int) -> Decimal {
    if a.scale <= places {
        a
    } else {
        decimal(half_even(a.mantissa as int, pow10(a.scale - places)), places)
    }
}

/// The whole part of `a`, rounded toward zero.
pub closed spec fn whole_part(a: Decimal) -> int {
    truncated(a.mantissa as int, pow10(a.scale as int))
}

/// `a` without trailing zeros behind the decimal point.
pub closed spec fn normalized(a: Decimal) -> Decimal {
    let parts = stripped(a.mantissa as int, a.scale as int);
    decimal(parts.0, parts.1)
}

/// `a` as text, with every digit of its scale.
pub closed spec fn text_of(a: Decimal) -> Seq<char> {
    decimal_text(a.mantissa as int, a.scale as int)
}

/// The view of the largest decimal.
pub open spec fn largest_value() -> int {
    MAX_MANTISSA * pow10(28)
}

/// Whether the view is one that a decimal can have.
pub open spec fn in_range(d: Decimal) -> bool {
    -largest_value() <= d@ <= largest_value()
}

/// Powers of ten are positive.
pub proof fn lemma_pow10_positive(n: int)
    ensures
        pow10(n) >= 1,
    decreases n,
{
    if n > 0 {
        lemma_pow10_positive(n - 1);
    }
}

/// Powers of ten multiply by adding their exponents.
pub proof fn lemma_pow10_adds(a: int, b: int)
    requires
        a >= 0,
        b >= 0,
    ensures
        pow10(a) * pow10(b) == pow10(a + b),
    decreases a,
{
    if a > 0 {
        lemma_pow10_adds(a - 1, b);
        assert(10 * pow10(a - 1) * pow10(b) == 10 * (pow10(a - 1) * pow10(b)))
            by (nonlinear_arith);
    }
}

/// A whole number counts itself in units of one.
pub proof fn lemma_whole(n: int)
    requires
        -MAX_MANTISSA <= n <= MAX_MANTISSA,
    ensures
        whole(n)@ == n * pow10(28),
        whole(0)@ == 0,
{
    assert(0 * pow10(28) == 0) by (nonlinear_arith);
}

/// Turning the sign of a whole number turns the sign of its view.
pub proof fn lemma_negated_whole(n: int)
    requires
        -MAX_MANTISSA <= n <= MAX_MANTISSA,
    ensures
        negated(whole(n))@ == -whole(n)@,
{
    let p = pow10(28);
    assert((-n) * p == -(n * p)) by (nonlinear_arith);
}

/// Where both operands have at most 64-bit mantissas and close scales, and the
/// exact sum fits, the sum is exact.
pub closed spec fn adds_exactly(a: Decimal, b: Decimal) -> bool {
    let scale = wider(a.scale as int, b.scale as int);
    &&& narrow(a.mantissa as int, a.scale as int, b.mantissa as int, b.scale as int)
    &&& representable(
        aligned(a.mantissa as int, a.scale as int, scale) + aligned(
            b.mantissa as int,
            b.scale as int,
            scale,
        ),
        scale,
    )
}

/// As [`adds_exactly`], for the difference.
pub open spec fn subtracts_exactly(a: Decimal, b: Decimal) -> bool {
    adds_exactly(a, negated(b))
}

/// Where the product of the mantissas fits 96 bits and the scales add up to at
/// most 28, the product is exact.
pub closed spec fn multiplies_exactly(a: Decimal, b: Decimal) -> bool {
    representable(a.mantissa * b.mantissa, a.scale + b.scale)
}

/// A decimal has the parts that it is made of, and the value that they give.
pub proof fn lemma_decimal(mantissa: int, scale: int)
    requires
        representable(mantissa, scale),
    ensures
        mantissa_of(decimal(mantissa, scale)) == mantissa,
        scale_of(decimal(mantissa, scale)) == scale,
        decimal(mantissa, scale)@ == scaled_value(mantissa, scale),
        decimal(mantissa, scale).parts_in_range(),
{
}

/// A decimal is made of its parts, which are in range.
pub proof fn lemma_parts(d: Decimal)
    requires
        d.parts_in_range(),
    ensures
        representable(mantissa_of(d), scale_of(d)),
        d == decimal(mantissa_of(d), scale_of(d)),
        d@ == scaled_value(mantissa_of(d), scale_of(d)),
        mantissa_of(negated(d)) == -mantissa_of(d),
        scale_of(negated(d)) == scale_of(d),
        negated(d)@ == -d@,
        negated(d).parts_in_range(),
{
    lemma_same_scale(0, d.mantissa as int, d.scale as int);
}

/// When a sum is exact, by the parts of the operands.
pub proof fn lemma_adds_exactly(a: Decimal, b: Decimal)
    ensures
        adds_exactly(a, b) <==> {
            let scale = wider(scale_of(a), scale_of(b));
            &&& narrow(mantissa_of(a), scale_of(a), mantissa_of(b), scale_of(b))
            &&& representable(
                aligned(mantissa_of(a), scale_of(a), scale) + aligned(
                    mantissa_of(b),
                    scale_of(b),
                    scale,
                ),
                scale,
            )
        },
{
}

/// When a product is exact, by the parts of the operands.
pub proof fn lemma_multiplies_exactly(a: Decimal, b: Decimal)
    ensures
        multiplies_exactly(a, b) <==> representable(
            mantissa_of(a) * mantissa_of(b),
            scale_of(a) + scale_of(b),
        ),
{
}

/// Whole numbers of at most 64 bits add and subtract exactly, and whole numbers multiply
/// exactly where their product is in range.
pub proof fn lemma_whole_arithmetic(a: int, b: int)
    requires
        -MAX_MANTISSA <= a <= MAX_MANTISSA,
        -MAX_MANTISSA <= b <= MAX_MANTISSA,
    ensures
        narrow(a, 0, b, 0) ==> adds_exactly(whole(a), whole(b)) && subtracts_exactly(
            whole(a),
            whole(b),
        ),
        adds_exactly(whole(a), whole(b)) ==> -MAX_MANTISSA <= a + b <= MAX_MANTISSA,
        multiplies_exactly(whole(a), whole(b)) <==> -MAX_MANTISSA <= a * b <= MAX_MANTISSA,
{
    let one = pow10(0);
    assert(a * one == a && b * one == b && (-b) * one == -b) by (nonlinear_arith)
        requires
            one == 1,
    ;
}

/// The whole part of a whole number is the number.
pub proof fn lemma_whole_part(n: int)
    requires
        -MAX_MANTISSA <= n <= MAX_MANTISSA,
    ensures
        whole_part(whole(n)) == n,
{
    assert(pow10(0) == 1);
    assert(n / 1 == n && (-n) / 1 == -n);
}

/// Rounding a second time to the same places changes nothing.
pub proof fn lemma_rounded_twice(a: Decimal, places: int)
    requires
        0 <= places <= MAX_SCALE,
    ensures
        rounded(rounded(a, places), places) == rounded(a, places),
{
}

/// Decimals on one side of an exact quotient are on that side of the rounded one.
pub proof fn lemma_quotient_keeps_order(
    dividend: int,
    divisor: int,
    result: int,
    mantissa: int,
    scale: int,
)
    requires
        rounds_quotient(dividend, divisor, result),
        representable(mantissa, scale),
    ensures
        scaled_value(mantissa, scale) * divisor <= dividend * pow10(28) ==> scaled_value(
            mantissa,
            scale,
        ) <= result,
        scaled_value(mantissa, scale) * divisor >= dividend * pow10(28) ==> scaled_value(
            mantissa,
            scale,
        ) >= result,
        scaled_value(mantissa, scale) * divisor == dividend * pow10(28) ==> scaled_value(
            mantissa,
            scale,
        ) == result,
{
    reveal(rounds_quotient);
}

/// As [`lemma_quotient_keeps_order`], for a whole number.
pub proof fn lemma_quotient_keeps_whole_order(dividend: int, divisor: int, result: int, n: int)
    requires
        rounds_quotient(dividend, divisor, result),
        -MAX_MANTISSA <= n <= MAX_MANTISSA,
    ensures
        n * divisor <= dividend ==> n * pow10(28) <= result,
        n * divisor >= dividend ==> n * pow10(28) >= result,
{
    let p = pow10(28);
    lemma_pow10_positive(28);
    lemma_quotient_keeps_order(dividend, divisor, result, n, 0);
    assert((n * p) * divisor == (n * divisor) * p) by (nonlinear_arith);
    assert(n * divisor <= dividend ==> (n * divisor) * p <= dividend * p) by (nonlinear_arith)
        requires
            p >= 1,
    ;
    assert(n * divisor >= dividend ==> (n * divisor) * p >= dividend * p) by (nonlinear_arith)
        requires
            p >= 1,
    ;
}

/// A quotient that is a decimal fits, so that dividing gives it.
pub proof fn lemma_exact_quotient_fits(dividend: int, divisor: int, mantissa: int, scale: int)
    requires
        divisor != 0,
        representable(mantissa, scale),
        scaled_value(mantissa, scale) * divisor == dividend * pow10(28),
    ensures
        quotient_fits(dividend, divisor),
{
    let p = pow10(28);
    let v = scaled_value(mantissa, scale);
    let most = MAX_MANTISSA as int;
    lemma_pow10_positive(28);
    lemma_in_range(mantissa, scale);
    assert(magnitude(dividend) <= magnitude(divisor) * most) by (nonlinear_arith)
        requires
            v * divisor == dividend * p,
            -(most * p) <= v <= most * p,
            p >= 1,
    ;
    let d = magnitude(divisor);
    assert(2 * (d * most) < d * (2 * most + 1)) by (nonlinear_arith)
        requires
            d > 0,
    ;
}

proof fn lemma_aligned_value(mantissa: int, own_scale: int, scale: int)
    requires
        0 <= own_scale <= scale <= MAX_SCALE,
    ensures
        scaled_value(aligned(mantissa, own_scale, scale), scale) == scaled_value(
            mantissa,
            own_scale,
        ),
{
    let up = pow10(scale - own_scale);
    let rest = pow10(MAX_SCALE - scale);
    lemma_pow10_adds(scale - own_scale, MAX_SCALE - scale);
    assert((mantissa * up) * rest == mantissa * (up * rest)) by (nonlinear_arith);
}

proof fn lemma_same_scale(a: int, b: int, scale: int)
    ensures
        scaled_value(a + b, scale) == scaled_value(a, scale) + scaled_value(b, scale),
        scaled_value(-b, scale) == -scaled_value(b, scale),
{
    let p = pow10(MAX_SCALE - scale);
    assert((a + b) * p == a * p + b * p) by (nonlinear_arith);
    assert((-b) * p == -(b * p)) by (nonlinear_arith);
}

impl Decimal {
    /// Whether the parts are such as a decimal can have.
    #[verifier::type_invariant]
    pub closed spec fn parts_in_range(self) -> bool {
        representable(self.mantissa as int, self.scale as int)
    }

    /// The number `num` x 10^-`scale`.
    pub fn new(num: i64, scale: u32) -> (result: Decimal)
        requires
            scale <= MAX_SCALE,
        ensures
            result == decimal(num as int, scale as int),
    {
        Decimal { mantissa: num as i128, scale }
    }

    /// The number `num` x 10^-`scale`, for a mantissa of up to 96 bits.
    pub fn from_i128_with_scale(num: i128, scale: u32) -> (result: Decimal)
        requires
            representable(num as int, scale as int),
        ensures
            result == decimal(num as int, scale as int),
    {
        Decimal { mantissa: num, scale }
    }

    /// A whole number.
    pub fn whole(n: i64) -> (result: Decimal)
        ensures
            result == whole(n as int),
    {
        Decimal { mantissa: n as i128, scale: 0 }
    }

    /// Zero.
    pub fn zero() -> (result: Decimal)
        ensures
            result == whole(0),
            result@ == 0,
    {
        Decimal { mantissa: 0, scale: 0 }
    }

    /// One.
    pub fn one() -> (result: Decimal)
        ensures
            result == whole(1),
    {
        Decimal { mantissa: 1, scale: 0 }
    }

    /// The mantissa of the number.
    pub fn mantissa(&self) -> (result: i128)
        ensures
            result == mantissa_of(*self),
    {
        self.mantissa
    }

    /// The number of decimal places it is written with.
    pub fn scale(&self) -> (result: u32)
        ensures
            result == scale_of(*self),
    {
        self.scale
    }

    /// `self + other`, or `None` where the sum cannot be represented.
    pub fn checked_add(self, other: Decimal) -> (result: Option<Decimal>)
        ensures
            result == sum(self, other),
            adds_exactly(self, other) ==> result is Some && result->0@ == self@ + other@,
            result is Some ==> in_range(result->0),
            other@ == 0 ==> result is Some && result->0@ == self@,
            result is Some && self@ >= 0 && other@ >= 0 ==> result->0@ >= self@ && result->0@
                >= other@,
    {
        proof {
            use_type_invariant(&self);
            use_type_invariant(&other);
            lemma_sign_of_mantissa(self);
            lemma_sign_of_mantissa(other);
            let scale = wider(self.scale as int, other.scale as int);
            lemma_aligned_value(self.mantissa as int, self.scale as int, scale);
            lemma_aligned_value(other.mantissa as int, other.scale as int, scale);
            lemma_same_scale(
                aligned(self.mantissa as int, self.scale as int, scale),
                aligned(other.mantissa as int, other.scale as int, scale),
                scale,
            );
        }
        let (mantissa, scale) = outside_sum(self.mantissa, self.scale, other.mantissa, other.scale)?;
        proof {
            lemma_in_range(mantissa as int, scale as int);
        }
        Some(Decimal { mantissa, scale })
    }

    /// `self - other`, or `None` where the difference cannot be represented.
    pub fn checked_sub(self, other: Decimal) -> (result: Option<Decimal>)
        ensures
            result == difference(self, other),
            subtracts_exactly(self, other) ==> result is Some && result->0@ == self@ - other@,
            other@ == 0 ==> result is Some && result->0@ == self@,
            result is Some && self@ >= 0 && other@ >= 0 ==> result->0@ <= self@,
            result is Some && self@ >= 0 && other@ <= 0 ==> result->0@ >= self@,
            result is Some && self@ >= other@ >= 0 ==> result->0@ >= 0,
    {
        proof {
            use_type_invariant(&self);
            use_type_invariant(&other);
            lemma_sign_of_mantissa(self);
            lemma_sign_of_mantissa(other);
            let scale = wider(self.scale as int, other.scale as int);
            let turned = aligned(other.mantissa as int, other.scale as int, scale);
            assert(aligned(-other.mantissa, other.scale as int, scale) == -turned) by {
                let up = pow10(scale - other.scale);
                let m = other.mantissa as int;
                assert((-m) * up == -(m * up)) by (nonlinear_arith);
            }
            lemma_aligned_value(self.mantissa as int, self.scale as int, scale);
            lemma_aligned_value(other.mantissa as int, other.scale as int, scale);
            lemma_same_scale(
                aligned(self.mantissa as int, self.scale as int, scale),
                -turned,
                scale,
            );
            lemma_same_scale(0, turned, scale);
            lemma_same_scale(0, other.mantissa as int, other.scale as int);
        }
        let (mantissa, scale) = outside_difference(
            self.mantissa,
            self.scale,
            other.mantissa,
            other.scale,
        )?;
        let result = Decimal { mantissa, scale };
        proof {
            lemma_sign_of_mantissa(result);
        }
        Some(result)
    }

    /// `self x other`, or `None` where the product cannot be represented.
    pub fn checked_mul(self, other: Decimal) -> (result: Option<Decimal>)
        ensures
            result == product(self, other),
            self@ == 0 || other@ == 0 ==> result == Some(whole(0)),
            multiplies_exactly(self, other) ==> result is Some && result->0@ * pow10(28) == self@
                * other@,
            result is Some ==> in_range(result->0),
            result is Some && self@ >= 0 && other@ >= 0 ==> result->0@ >= 0,
            result is Some && self@ >= 0 && other@ <= 0 ==> result->0@ <= 0,
            result is Some && self@ <= 0 && other@ >= 0 ==> result->0@ <= 0,
            result is Some && self@ >= 0 && other@ >= pow10(28) ==> result->0@ >= self@,
            result is Some && self@ >= 0 && other@ <= pow10(28) ==> result->0@ <= self@,
    {
        proof {
            use_type_invariant(&self);
            use_type_invariant(&other);
            lemma_sign_of_mantissa(self);
            lemma_sign_of_mantissa(other);
            if multiplies_exactly(self, other) {
                lemma_product_value(
                    self.mantissa as int,
                    self.scale as int,
                    other.mantissa as int,
                    other.scale as int,
                );
            }
        }
        let (mantissa, scale) = outside_product(
            self.mantissa,
            self.scale,
            other.mantissa,
            other.scale,
        )?;
        let result = Decimal { mantissa, scale };
        proof {
            lemma_in_range(mantissa as int, scale as int);
            lemma_sign_of_mantissa(result);
            let a = self@;
            let b = other@;
            assert(a == 0 || b == 0 ==> a * b == 0) by (nonlinear_arith);
        }
        Some(result)
    }

    /// `self / other`, rounded to the nearest, or `None` where the divisor is zero or the
    /// quotient cannot be represented.
    pub fn checked_div(self, other: Decimal) -> (result: Option<Decimal>)
        ensures
            result == quotient(self, other),
            result is Some <==> other@ != 0 && quotient_fits(self@, other@),
            other@ != 0 && self@ == 0 ==> result == Some(whole(0)),
            result is Some && other@ > 0 ==> rounds_quotient(self@, other@, result->0@),
            result is Some && other@ < 0 ==> rounds_quotient(-self@, -other@, result->0@),
            result is Some && self@ >= 0 && other@ > 0 ==> result->0@ >= 0,
    {
        proof {
            use_type_invariant(&self);
            use_type_invariant(&other);
            lemma_sign_of_mantissa(self);
            lemma_sign_of_mantissa(other);
        }
        let (mantissa, scale) = outside_quotient(
            self.mantissa,
            self.scale,
            other.mantissa,
            other.scale,
        )?;
        let result = Decimal { mantissa, scale };
        proof {
            if self@ >= 0 && other@ > 0 {
                lemma_quotient_keeps_whole_order(self@, other@, result@, 0);
                assert(0 * pow10(28) == 0);
            }
        }
        Some(result)
    }

    /// Whether this number is smaller than `other`.
    pub fn is_less(self, other: Decimal) -> (result: bool)
        ensures
            result == (self@ < other@),
    {
        proof {
            use_type_invariant(&self);
            use_type_invariant(&other);
        }
        outside_less(self.mantissa, self.scale, other.mantissa, other.scale)
    }

    /// Whether this number is larger than `other`.
    pub fn is_more(self, other: Decimal) -> (result: bool)
        ensures
            result == (self@ > other@),
    {
        other.is_less(self)
    }

    /// Whether this number is not larger than `other`.
    pub fn is_at_most(self, other: Decimal) -> (result: bool)
        ensures
            result == (self@ <= other@),
    {
        !other.is_less(self)
    }

    /// Whether this number is not smaller than `other`.
    pub fn is_at_least(self, other: Decimal) -> (result: bool)
        ensures
            result == (self@ >= other@),
    {
        !self.is_less(other)
    }

    /// Whether the two numbers are equal.
    pub fn equals(self, other: Decimal) -> (result: bool)
        ensures
            result == (self@ == other@),
    {
        !self.is_less(other) && !other.is_less(self)
    }

    /// Whether the number is above zero.
    pub fn is_positive(self) -> (result: bool)
        ensures
            result == (self@ > 0),
    {
        proof {
            lemma_sign_of_mantissa(self);
        }
        self.mantissa > 0
    }

    /// Whether the number is below zero.
    pub fn is_negative(self) -> (result: bool)
        ensures
            result == (self@ < 0),
    {
        proof {
            lemma_sign_of_mantissa(self);
        }
        self.mantissa < 0
    }

    /// Whether the number is zero.
    pub fn is_zero(self) -> (result: bool)
        ensures
            result == (self@ == 0),
    {
        proof {
            lemma_sign_of_mantissa(self);
        }
        self.mantissa == 0
    }

    /// The number with its sign turned.
    pub fn negate(self) -> (result: Decimal)
        ensures
            result == negated(self),
            result@ == -self@,
    {
        proof {
            use_type_invariant(&self);
            lemma_same_scale(0, self.mantissa as int, self.scale as int);
        }
        Decimal { mantissa: -self.mantissa, scale: self.scale }
    }

    /// The number without its sign.
    pub fn abs(self) -> (result: Decimal)
        ensures
            result == absolute(self),
            result@ == if self@ < 0 {
                -self@
            } else {
                self@
            },
    {
        proof {
            lemma_sign_of_mantissa(self);
        }
        if self.mantissa < 0 {
            self.negate()
        } else {
            self
        }
    }

    /// The smaller of two numbers.
    pub fn min(self, other: Decimal) -> (result: Decimal)
        ensures
            result == lesser(self, other),
    {
        if self.is_more(other) {
            other
        } else {
            self
        }
    }

    /// The larger of two numbers.
    pub fn max(self, other: Decimal) -> (result: Decimal)
        ensures
            result == greater(self, other),
    {
        if self.is_less(other) {
            other
        } else {
            self
        }
    }

    /// The largest whole number not above this one.
    pub fn floor(self) -> (result: Decimal)
        ensures
            result == floor_of(self),
            -MAX_MANTISSA <= floor_int(self) <= MAX_MANTISSA,
            result@ <= self@ < result@ + pow10(28),
            self@ >= 0 ==> result@ >= 0,
    {
        proof {
            use_type_invariant(&self);
            lemma_floor_value(self.mantissa as int, self.scale as int);
        }
        let (mantissa, scale) = outside_floor(self.mantissa, self.scale);
        Decimal { mantissa, scale }
    }

    /// The smallest whole number not below this one.
    pub fn ceil(self) -> (result: Decimal)
        ensures
            result == ceil_of(self),
            -MAX_MANTISSA <= ceil_int(self) <= MAX_MANTISSA,
            self@ <= result@ < self@ + pow10(28),
    {
        proof {
            use_type_invariant(&self);
            lemma_floor_value(-self.mantissa, self.scale as int);
            lemma_same_scale(0, self.mantissa as int, self.scale as int);
            let p = pow10(self.scale as int);
            lemma_same_scale(0, (-self.mantissa) / p, 0);
        }
        let (mantissa, scale) = outside_ceil(self.mantissa, self.scale);
        Decimal { mantissa, scale }
    }

    /// The number rounded half to even at `places` decimal places.
    pub fn round_dp(self, places: u32) -> (result: Decimal)
        ensures
            result == rounded(self, places as int),
            places <= MAX_SCALE ==> 2 * magnitude(result@ - self@) <= pow10(MAX_SCALE - places),
    {
        proof {
            use_type_invariant(&self);
            lemma_pow10_positive(MAX_SCALE - places);
            if places < self.scale {
                lemma_half_even_value(self.mantissa as int, self.scale as int, places as int);
            }
        }
        let (mantissa, scale) = outside_round_dp(self.mantissa, self.scale, places);
        Decimal { mantissa, scale }
    }

    /// The number rounded half to even to a whole number.
    pub fn round(self) -> (result: Decimal)
        ensures
            result == rounded(self, 0),
            2 * magnitude(result@ - self@) <= pow10(28),
    {
        self.round_dp(0)
    }

    /// The whole part of the number, where an `i64` can hold it.
    pub fn to_i64(self) -> (result: Option<i64>)
        ensures
            i64::MIN <= whole_part(self) <= i64::MAX ==> result == Some(whole_part(self) as i64),
            !(i64::MIN <= whole_part(self) <= i64::MAX) ==> result is None,
    {
        proof {
            use_type_invariant(&self);
        }
        outside_to_i64(self.mantissa, self.scale)
    }

    /// The whole part of a number that is not negative, where a `u32` can hold it.
    pub fn to_u32(self) -> (result: Option<u32>)
        ensures
            self@ >= 0 && whole_part(self) <= u32::MAX ==> result == Some(whole_part(self) as u32),
            !(self@ >= 0 && whole_part(self) <= u32::MAX) ==> result is None,
    {
        proof {
            use_type_invariant(&self);
            lemma_sign_of_mantissa(self);
            lemma_pow10_positive(self.scale as int);
            if self.mantissa >= 0 {
                vstd::arithmetic::div_mod::lemma_div_pos_is_pos(
                    self.mantissa as int,
                    pow10(self.scale as int),
                );
            }
        }
        outside_to_u32(self.mantissa, self.scale)
    }

    /// The number without trailing zeros behind the decimal point.
    pub fn normalize(self) -> (result: Decimal)
        ensures
            result == normalized(self),
    {
        proof {
            use_type_invariant(&self);
        }
        let (mantissa, scale) = outside_normalize(self.mantissa, self.scale);
        Decimal { mantissa, scale }
    }

    /// The number as text, with every digit of its scale.
    pub fn to_text(self) -> (result: String)
        ensures
            result@ == text_of(self),
    {
        proof {
            use_type_invariant(&self);
        }
        outside_text(self.mantissa, self.scale)
    }

    /// Whether two decimals are written alike: the same mantissa and the same scale.
    /// Numbers that are written alike are equal; equal numbers may be written apart.
    pub fn same_digits(self, other: Decimal) -> (result: bool)
        ensures
            result == (self == other),
    {
        self.mantissa == other.mantissa && self.scale == other.scale
    }
}

proof fn lemma_sign_of_mantissa(d: Decimal)
    ensures
        d.mantissa == 0 <==> d@ == 0,
        d.mantissa < 0 <==> d@ < 0,
{
    let p = pow10(MAX_SCALE - d.scale);
    let m = d.mantissa as int;
    lemma_pow10_positive(MAX_SCALE - d.scale);
    assert(m == 0 ==> m * p == 0);
    assert(m < 0 ==> m * p < 0) by (nonlinear_arith)
        requires
            p >= 1,
    ;
    assert(m > 0 ==> m * p > 0) by (nonlinear_arith)
        requires
            p >= 1,
    ;
}

proof fn lemma_in_range(mantissa: int, scale: int)
    requires
        representable(mantissa, scale),
    ensures
        -largest_value() <= scaled_value(mantissa, scale) <= largest_value(),
{
    let p = pow10(MAX_SCALE - scale);
    let rest = pow10(scale);
    lemma_pow10_positive(MAX_SCALE - scale);
    lemma_pow10_positive(scale);
    lemma_pow10_adds(MAX_SCALE - scale, scale);
    let m = MAX_MANTISSA as int;
    assert(-(m * (p * rest)) <= mantissa * p <= m * (p * rest)) by (nonlinear_arith)
        requires
            -m <= mantissa <= m,
            m > 0,
            p >= 1,
            rest >= 1,
    ;
}

proof fn lemma_product_value(a: int, a_scale: int, b: int, b_scale: int)
    requires
        0 <= a_scale,
        0 <= b_scale,
        a_scale + b_scale <= MAX_SCALE,
    ensures
        scaled_value(a * b, a_scale + b_scale) * pow10(28) == scaled_value(a, a_scale)
            * scaled_value(b, b_scale),
{
    let pa = pow10(28 - a_scale);
    let pb = pow10(28 - b_scale);
    let pc = pow10(28 - (a_scale + b_scale));
    let p = pow10(28);
    lemma_pow10_adds(28 - a_scale, 28 - b_scale);
    lemma_pow10_adds(28 - (a_scale + b_scale), 28);
    assert(pa * pb == pc * p);
    assert((a * b) * pc * p == (a * b) * (pc * p)) by (nonlinear_arith);
    assert((a * pa) * (b * pb) == (a * b) * (pa * pb)) by (nonlinear_arith);
}

proof fn lemma_half_even_value(mantissa: int, scale: int, places: int)
    requires
        0 <= places < scale <= MAX_SCALE,
    ensures
        2 * magnitude(
            scaled_value(half_even(mantissa, pow10(scale - places)), places) - scaled_value(
                mantissa,
                scale,
            ),
        ) <= pow10(MAX_SCALE - places),
{
    let d = pow10(scale - places);
    let r = pow10(MAX_SCALE - scale);
    let whole_unit = pow10(MAX_SCALE - places);
    lemma_pow10_positive(scale - places);
    lemma_pow10_positive(MAX_SCALE - scale);
    lemma_pow10_adds(scale - places, MAX_SCALE - scale);
    let size = magnitude(mantissa);
    let q = size / d;
    let m = size % d;
    vstd::arithmetic::div_mod::lemma_fundamental_div_mod(size, d);
    vstd::arithmetic::div_mod::lemma_mod_bound(size, d);
    let h = half_even(mantissa, d);
    assert((q + 1) * d == q * d + d) by (nonlinear_arith);
    assert((-q) * d == -(q * d) && (-(q + 1)) * d == -((q + 1) * d)) by (nonlinear_arith);
    assert(d * q == q * d) by (nonlinear_arith);
    let off = h * d - mantissa;
    assert(2 * magnitude(off) <= d);
    assert(h * whole_unit - mantissa * r == off * r) by (nonlinear_arith)
        requires
            whole_unit == d * r,
            off == h * d - mantissa,
    ;
    assert(2 * magnitude(off * r) <= d * r) by (nonlinear_arith)
        requires
            2 * magnitude(off) <= d,
            r >= 1,
    ;
}

proof fn lemma_floor_value(mantissa: int, scale: int)
    requires
        0 <= scale <= MAX_SCALE,
    ensures
        scaled_value(mantissa / pow10(scale), 0) <= scaled_value(mantissa, scale) < scaled_value(
            mantissa / pow10(scale),
            0,
        ) + pow10(28),
        mantissa >= 0 ==> mantissa / pow10(scale) >= 0,
        scaled_value(mantissa, scale) >= 0 ==> scaled_value(mantissa / pow10(scale), 0) >= 0,
{
    let p = pow10(scale);
    let r = pow10(28 - scale);
    lemma_pow10_positive(scale);
    lemma_pow10_positive(28 - scale);
    lemma_pow10_adds(scale, 28 - scale);
    let q = mantissa / p;
    let m = mantissa % p;
    vstd::arithmetic::div_mod::lemma_fundamental_div_mod(mantissa, p);
    vstd::arithmetic::div_mod::lemma_mod_bound(mantissa, p);
    assert(mantissa * r == q * (p * r) + m * r) by (nonlinear_arith)
        requires
            mantissa == p * q + m,
    ;
    assert(0 <= m * r < p * r) by (nonlinear_arith)
        requires
            0 <= m < p,
            r >= 1,
    ;
    if mantissa >= 0 {
        vstd::arithmetic::div_mod::lemma_div_pos_is_pos(mantissa, p);
    }
    if scaled_value(mantissa, scale) >= 0 {
        assert(mantissa >= 0) by (nonlinear_arith)
            requires
                mantissa * r >= 0,
                r >= 1,
        ;
        assert(q * (p * r) >= 0) by (nonlinear_arith)
            requires
                q >= 0,
                p >= 1,
                r >= 1,
        ;
    }
}

impl PartialEq for Decimal {
    fn eq(&self, other: &Decimal) -> (result: bool) {
        self.equals(*other)
    }
}

impl PartialEqSpecImpl for Decimal {
    open spec fn obeys_eq_spec() -> bool {
        true
    }

    open spec fn eq_spec(&self, other: &Decimal) -> bool {
        self@ == other@
    }
}

impl PartialOrd for Decimal {
    fn partial_cmp(&self, other: &Decimal) -> (result: Option<Ordering>) {
        if self.is_less(*other) {
            Some(Ordering::Less)
        } else if other.is_less(*self) {
            Some(Ordering::Greater)
        } else {
            Some(Ordering::Equal)
        }
    }
}

impl PartialOrdSpecImpl for Decimal {
    open spec fn obeys_partial_cmp_spec() -> bool {
        true
    }

    open spec fn partial_cmp_spec(&self, other: &Decimal) -> Option<Ordering> {
        if self@ < other@ {
            Some(Ordering::Less)
        } else if self@ > other@ {
            Some(Ordering::Greater)
        } else {
            Some(Ordering::Equal)
        }
    }
}

impl From<i32> for Decimal {
    fn from(n: i32) -> (result: Decimal) {
        Decimal::from_i128_with_scale(n as i128, 0)
    }
}

impl FromSpecImpl<i32> for Decimal {
    open spec fn obeys_from_spec() -> bool {
        true
    }

    open spec fn from_spec(n: i32) -> Decimal {
        whole(n as int)
    }
}

impl From<i64> for Decimal {
    fn from(n: i64) -> (result: Decimal) {
        Decimal::from_i128_with_scale(n as i128, 0)
    }
}

impl FromSpecImpl<i64> for Decimal {
    open spec fn obeys_from_spec() -> bool {
        true
    }

    open spec fn from_spec(n: i64) -> Decimal {
        whole(n as int)
    }
}

impl From<u32> for Decimal {
    fn from(n: u32) -> (result: Decimal) {
        Decimal::from_i128_with_scale(n as i128, 0)
    }
}

impl FromSpecImpl<u32> for Decimal {
    open spec fn obeys_from_spec() -> bool {
        true
    }

    open spec fn from_spec(n: u32) -> Decimal {
        whole(n as int)
    }
}

impl From<u64> for Decimal {
    fn from(n: u64) -> (result: Decimal) {
        Decimal::from_i128_with_scale(n as i128, 0)
    }
}

impl FromSpecImpl<u64> for Decimal {
    open spec fn obeys_from_spec() -> bool {
        true
    }

    open spec fn from_spec(n: u64) -> Decimal {
        whole(n as int)
    }
}

impl From<usize> for Decimal {
    fn from(n: usize) -> (result: Decimal) {
        Decimal::from_i128_with_scale(n as i128, 0)
    }
}

impl FromSpecImpl<usize> for Decimal {
    open spec fn obeys_from_spec() -> bool {
        true
    }

    open spec fn from_spec(n: usize) -> Decimal {
        whole(n as int)
    }
}

} // verus!
