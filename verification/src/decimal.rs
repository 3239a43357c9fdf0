//! The decimal arithmetic that this crate takes from `rust_decimal`, on plain
//! values: a decimal is its mantissa and its scale, `mantissa / 10^scale`.
//!
//! The three functions that call `rust_decimal` are not proved: each states
//! what is taken on trust from it.

use rust_decimal::Decimal;
use std::str::FromStr;
use vstd::prelude::*;

verus! {

/// Largest number of fractional digits a decimal can have.
pub const MAX_SCALE: u32 = 28;

/// Largest magnitude of a decimal's mantissa: 2^96 - 1.
pub const MAX_MANTISSA: i128 = 79_228_162_514_264_337_593_543_950_335;

/// Whether `mantissa / 10^scale` is a value that a `Decimal` can hold: a
/// mantissa of at most 96 bits and a scale of at most 28.
pub open spec fn is_decimal(mantissa: i128, scale: u32) -> bool {
    -MAX_MANTISSA <= mantissa <= MAX_MANTISSA && scale <= MAX_SCALE
}

/// What `Decimal::from_str` makes of a text: the mantissa and scale of the
/// decimal it reads, or `None` where it reports an error.
pub uninterp spec fn parsed_decimal(text: Seq<char>) -> Option<(i128, u32)>;

/// Ten to the power of `n`.
pub open spec fn pow10(n: nat) -> int
    decreases n,
{
    if n == 0 {
        1
    } else {
        10 * pow10((n - 1) as nat)
    }
}

/// `magnitude / unit` as the nearest whole number; where two are equally near,
/// the even one.
pub open spec fn half_even(magnitude: int, unit: int) -> int {
    let below = magnitude / unit;
    let rest = magnitude % unit;
    if 2 * rest > unit || (2 * rest == unit && below % 2 == 1) {
        below + 1
    } else {
        below
    }
}

/// `mantissa` with its last `dropped` digits rounded away, half to even, the
/// sign set aside while rounding.
pub open spec fn rounded_mantissa(mantissa: int, dropped: nat) -> int {
    if mantissa < 0 {
        -half_even(-mantissa, pow10(dropped))
    } else {
        half_even(mantissa, pow10(dropped))
    }
}

/// What `Decimal::round_dp` makes of `mantissa / 10^scale` when asked for
/// `places` fractional digits: the decimal itself where it has no more than
/// that, and else its mantissa rounded half to even at a scale of `places`.
pub open spec fn rounded_decimal(mantissa: i128, scale: u32, places: u32) -> (i128, u32) {
    if scale <= places {
        (mantissa, scale)
    } else {
        (rounded_mantissa(mantissa as int, (scale - places) as nat) as i128, places)
    }
}

/// The character that stands for a single digit.
pub open spec fn digit(d: int) -> char {
    if d == 0 {
        '0'
    } else if d == 1 {
        '1'
    } else if d == 2 {
        '2'
    } else if d == 3 {
        '3'
    } else if d == 4 {
        '4'
    } else if d == 5 {
        '5'
    } else if d == 6 {
        '6'
    } else if d == 7 {
        '7'
    } else if d == 8 {
        '8'
    } else {
        '9'
    }
}

/// The decimal digits of `n`, without leading zeros; one zero for zero.
pub open spec fn digits(n: nat) -> Seq<char>
    decreases n,
{
    if n < 10 {
        seq![digit(n as int)]
    } else {
        digits(n / 10).push(digit((n % 10) as int))
    }
}

/// The last `width` decimal digits of `n`, with zeros in front where it has
/// fewer.
pub open spec fn last_digits(n: nat, width: nat) -> Seq<char>
    decreases width,
{
    if width == 0 {
        Seq::empty()
    } else {
        last_digits(n / 10, (width - 1) as nat).push(digit((n % 10) as int))
    }
}

/// `mantissa / 10^scale` written with all its `scale` fractional digits: the
/// digits of the whole part, then, where there are fractional digits, a point
/// and those.
pub open spec fn plain_text(mantissa: nat, scale: nat) -> Seq<char> {
    let whole = digits((mantissa as int / pow10(scale)) as nat);
    if scale == 0 {
        whole
    } else {
        whole + seq!['.'] + last_digits(mantissa, scale)
    }
}

/// Calls `Decimal::from_str` and hands back the mantissa and scale of what it
/// read. Trusted: the result depends on the text alone, and what `mantissa()`
/// and `scale()` return of any `Decimal` is a mantissa of at most 96 bits and a
/// scale of at most 28.
#[verifier::external_body]
pub(crate) fn parse_decimal(text: &str) -> (r: Option<(i128, u32)>)
    ensures
        r == parsed_decimal(text@),
        r matches Some((mantissa, scale)) ==> is_decimal(mantissa, scale),
{
    match Decimal::from_str(text) {
        Ok(d) => Some((d.mantissa(), d.scale())),
        Err(_) => None,
    }
}

/// Calls `Decimal::round_dp` on `mantissa / 10^scale`. Trusted: the result is
/// a decimal again; a decimal that has no more than `places` fractional digits
/// comes back as it is, and any other comes back with exactly `places` of
/// them, its mantissa rounded half to even (banker's rounding).
#[verifier::external_body]
pub(crate) fn round_decimal(mantissa: i128, scale: u32, places: u32) -> (r: (i128, u32))
    requires
        is_decimal(mantissa, scale),
    ensures
        is_decimal(r.0, r.1),
        scale <= places ==> r == (mantissa, scale),
        scale > places ==> r.1 == places && r.0 == rounded_mantissa(
            mantissa as int,
            (scale - places) as nat,
        ),
{
    let d = Decimal::from_i128_with_scale(mantissa, scale).round_dp(places);
    (d.mantissa(), d.scale())
}

/// Formats `mantissa / 10^scale` through `Decimal`'s `Display` with a
/// precision of `places`, for a decimal that is not negative and is asked for
/// as many places as it has. Trusted: the text is the digits of the whole part
/// followed, where there are places, by a point and that many digits. The
/// formatter works in a buffer of 32 characters, which a precision beyond the
/// scale can overrun, and writes the sign itself: such calls are left out.
#[verifier::external_body]
pub(crate) fn format_decimal(mantissa: i128, scale: u32, places: usize) -> (r: String)
    requires
        is_decimal(mantissa, scale),
        mantissa >= 0,
        places == scale,
    ensures
        r@ == plain_text(mantissa as nat, scale as nat),
{
    format!("{:.*}", places, Decimal::from_i128_with_scale(mantissa, scale))
}

} // verus!
