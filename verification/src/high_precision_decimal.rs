//! Amounts as text: read with up to four fractional digits kept, written with
//! four fractional digits and then without trailing zeros.

use vstd::prelude::*;
use crate::amount::{scale_factor, units_of_parts, Amount, UNITS_PER_WHOLE};
use crate::decimal::{
    digits, format_decimal, is_decimal, last_digits, parse_decimal, parsed_decimal, pow10,
    round_decimal, rounded_decimal,
};

verus! {

/// Fractional digits that an amount keeps.
pub const PLACES: u32 = 4;

/// Fractional digits that an amount is formatted with before it is trimmed.
pub const PRECISION: usize = 4;

/// Why a text gives no amount.
#[derive(Clone, Copy, Debug, PartialEq, Eq, Structural)]
pub enum AmountError {
    /// The text is not a decimal number.
    Malformed,
    /// The number has more than four fractional digits or more than 96 bits
    /// of mantissa. No text that is read gives this: rounding rules it out.
    OutOfRange,
}

/// `s` without the run of `c` at its end.
pub open spec fn without_trailing(s: Seq<char>, c: char) -> Seq<char>
    decreases s.len(),
{
    if s.len() > 0 && s.last() == c {
        without_trailing(s.drop_last(), c)
    } else {
        s
    }
}

/// A formatted decimal without its trailing zeros, and without the decimal
/// point where nothing is left behind it.
pub open spec fn trimmed(text: Seq<char>) -> Seq<char> {
    without_trailing(without_trailing(text, '0'), '.')
}

/// `s` without its first character.
pub open spec fn after_first(s: Seq<char>) -> Seq<char> {
    if s.len() > 0 {
        s.subrange(1, s.len() as int)
    } else {
        s
    }
}

/// A sign, the text of a whole number and the text of a fraction below one,
/// put together as one number: the fraction's own leading zero goes.
pub open spec fn joined(negative: bool, whole: Seq<char>, fraction: Seq<char>) -> Seq<char> {
    let sign = if negative {
        "-"@
    } else {
        Seq::<char>::empty()
    };
    sign + whole + after_first(fraction)
}

/// The text of `units` ten-thousandths with all four fractional digits: a
/// minus sign where they are negative, the digits of the whole part, a point
/// and the four digits of the fraction.
pub open spec fn fixed_text(units: int) -> Seq<char> {
    let magnitude = if units < 0 {
        -units
    } else {
        units
    };
    let sign = if units < 0 {
        "-"@
    } else {
        Seq::<char>::empty()
    };
    sign + digits((magnitude / 10_000) as nat) + seq!['.'] + last_digits(
        (magnitude % 10_000) as nat,
        4,
    )
}

/// The text written for an amount of `units` ten-thousandths.
pub open spec fn text_of_units(units: int) -> Seq<char> {
    trimmed(fixed_text(units))
}

/// The ten-thousandths of a decimal that was rounded to four places.
pub open spec fn units_of_rounded(rounded: (i128, u32)) -> Result<int, AmountError> {
    match units_of_parts(rounded.0 as int, rounded.1 as nat) {
        Some(units) => Ok(units),
        None => Err(AmountError::OutOfRange),
    }
}

/// The ten-thousandths that a text denotes: the decimal it is read as,
/// rounded to four places.
pub open spec fn units_of_text(text: Seq<char>) -> Result<int, AmountError> {
    match parsed_decimal(text) {
        Some((mantissa, scale)) => units_of_rounded(rounded_decimal(mantissa, scale, PLACES)),
        None => Err(AmountError::Malformed),
    }
}

/// Whether `r` is the amount, or the error, that `expected` asks for.
pub open spec fn amount_is(r: Result<Amount, AmountError>, expected: Result<int, AmountError>) -> bool {
    match r {
        Ok(a) => expected == Ok::<int, AmountError>(a@),
        Err(e) => expected == Err::<int, AmountError>(e),
    }
}

/// The part of `text` before the run of `c` at its end.
pub fn trim_end_matches(text: &str, c: char) -> (r: &str)
    ensures
        r@ == without_trailing(text@, c),
{
    let mut n: usize = text.unicode_len();
    assert(text@.subrange(0, n as int) =~= text@);
    while n > 0 && text.get_char(n - 1) == c
        invariant
            n <= text@.len(),
            without_trailing(text@.subrange(0, n as int), c) == without_trailing(text@, c),
        decreases n,
    {
        assert(text@.subrange(0, n as int).drop_last() =~= text@.subrange(0, n - 1));
        n = n - 1;
    }
    text.substring_char(0, n)
}

/// A formatted decimal without trailing zeros and without a trailing point.
pub fn trim(text: &str) -> (r: String)
    ensures
        r@ == trimmed(text@),
{
    trim_end_matches(trim_end_matches(text, '0'), '.').to_owned()
}

/// The amount that a decimal rounded to four places stands for.
pub fn from_rounded(rounded: (i128, u32)) -> (r: Result<Amount, AmountError>)
    ensures
        amount_is(r, units_of_rounded(rounded)),
        is_decimal(rounded.0, rounded.1) && rounded.1 <= PLACES ==> r.is_ok(),
{
    match Amount::from_parts(rounded.0, rounded.1) {
        Some(a) => Ok(a),
        None => Err(AmountError::OutOfRange),
    }
}

/// Puts a sign, a formatted whole number and a formatted fraction below one
/// together as one number.
pub fn join(negative: bool, whole: &str, fraction: &str) -> (r: String)
    ensures
        r@ == joined(negative, whole@, fraction@),
{
    let mut text = if negative {
        "-".to_owned()
    } else {
        String::new()
    };
    text.append(whole);
    let n: usize = fraction.unicode_len();
    if n > 0 {
        text.append(fraction.substring_char(1, n));
    }
    assert(text@ =~= joined(negative, whole@, fraction@));
    text
}

/// Writes an amount with up to four fractional digits and no trailing zeros.
/// The whole part and the fraction are formatted apart, each as a decimal of
/// its own, so that no amount is too long for the formatter.
pub fn serialize(decimal: &Amount) -> (r: String)
    ensures
        r@ == text_of_units(decimal@),
{
    let units: i128 = decimal.units();
    let magnitude: i128 = if units < 0 {
        -units
    } else {
        units
    };
    let whole = format_decimal(magnitude / UNITS_PER_WHOLE, 0, 0);
    let fraction = format_decimal(magnitude % UNITS_PER_WHOLE, PLACES, PRECISION);
    let text = join(units < 0, whole.as_str(), fraction.as_str());
    proof {
        reveal_with_fuel(pow10, 5);
        let rest = (magnitude % UNITS_PER_WHOLE) as nat;
        assert(pow10(4) == 10_000);
        assert(pow10(0) == 1);
        assert(rest as int / 10_000 == 0);
        assert(digits(0) =~= seq!['0']);
        assert(fraction@ == seq!['0'] + seq!['.'] + last_digits(rest, 4));
        assert(after_first(fraction@) =~= seq!['.'] + last_digits(rest, 4));
        assert(whole@ == digits((magnitude / UNITS_PER_WHOLE) as nat));
        assert(text@ =~= fixed_text(decimal@));
    }
    trim(text.as_str())
}

/// Reads an amount from a decimal number, rounded to four fractional digits.
/// Every text that is a decimal number gives an amount, and one written with
/// no more than four fractional digits gives exactly its value.
pub fn deserialize(text: &str) -> (r: Result<Amount, AmountError>)
    ensures
        amount_is(r, units_of_text(text@)),
        match parsed_decimal(text@) {
            Some(parsed) => r.is_ok() && (parsed.1 <= PLACES ==> r.unwrap()@ == parsed.0
                * scale_factor(parsed.1 as nat)),
            None => r == Err::<Amount, AmountError>(AmountError::Malformed),
        },
{
    match parse_decimal(text) {
        Some((mantissa, scale)) => from_rounded(round_decimal(mantissa, scale, PLACES)),
        None => Err(AmountError::Malformed),
    }
}

} // verus!
