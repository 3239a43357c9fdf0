use payments_engine::amount::{Amount, MAX_UNITS};
use payments_engine::high_precision_decimal::{
    deserialize, from_rounded, join, serialize, trim, trim_end_matches, AmountError,
};

const WIDEST_MANTISSA: i128 = (1i128 << 96) - 1;

fn units(n: i128) -> Amount {
    Amount::from_units(n).unwrap()
}

#[test]
fn zero_has_no_units() {
    assert_eq!(Amount::zero().units(), 0);
    assert_eq!(Amount::zero(), units(0));
}

#[test]
fn from_units_accepts_exactly_the_range() {
    assert_eq!(Amount::from_units(MAX_UNITS).map(|a| a.units()), Some(MAX_UNITS));
    assert_eq!(Amount::from_units(-MAX_UNITS).map(|a| a.units()), Some(-MAX_UNITS));
    assert_eq!(Amount::from_units(MAX_UNITS + 1), None);
    assert_eq!(Amount::from_units(-MAX_UNITS - 1), None);
    assert_eq!(MAX_UNITS, WIDEST_MANTISSA * 10_000);
}

#[test]
fn from_integer_counts_ten_thousandths() {
    assert_eq!(Amount::from_integer(50).units(), 500_000);
    assert_eq!(Amount::from_integer(-3).units(), -30_000);
    assert_eq!(Amount::from_integer(i64::MAX).units(), (i64::MAX as i128) * 10_000);
}

#[test]
fn from_parts_scales_to_four_places() {
    assert_eq!(Amount::from_parts(15, 1), Some(units(15_000)));
    assert_eq!(Amount::from_parts(7, 0), Some(units(70_000)));
    assert_eq!(Amount::from_parts(-125, 2), Some(units(-12_500)));
    assert_eq!(Amount::from_parts(1_001, 3), Some(units(10_010)));
    assert_eq!(Amount::from_parts(12_345, 4), Some(units(12_345)));
    assert_eq!(Amount::from_parts(WIDEST_MANTISSA, 0), Some(units(MAX_UNITS)));
    assert_eq!(Amount::from_parts(-WIDEST_MANTISSA, 4), Some(units(-WIDEST_MANTISSA)));
}

#[test]
fn from_parts_rejects_finer_scales_and_large_values() {
    assert_eq!(Amount::from_parts(1, 5), None);
    assert_eq!(Amount::from_parts(MAX_UNITS, 3), None);
    assert_eq!(Amount::from_parts(MAX_UNITS / 10 + 1, 3), None);
    assert_eq!(Amount::from_parts(MAX_UNITS / 10, 3).map(|a| a.units()), Some(MAX_UNITS / 10 * 10));
    assert_eq!(Amount::from_parts(i128::MAX, 0), None);
    assert_eq!(Amount::from_parts(i128::MIN, 4), None);
}

#[test]
fn checked_arithmetic_is_exact_within_the_range() {
    assert_eq!(units(1).checked_add(units(2)), Some(units(3)));
    assert_eq!(units(1).checked_sub(units(2)), Some(units(-1)));
    assert_eq!(units(MAX_UNITS).checked_add(units(1)), None);
    assert_eq!(units(-MAX_UNITS).checked_sub(units(1)), None);
    assert_eq!(units(MAX_UNITS).checked_sub(units(MAX_UNITS)), Some(Amount::zero()));
}

#[test]
fn trim_end_matches_drops_the_whole_run() {
    assert_eq!(trim_end_matches("1.2300", '0'), "1.23");
    assert_eq!(trim_end_matches("100", '0'), "1");
    assert_eq!(trim_end_matches("0000", '0'), "");
    assert_eq!(trim_end_matches("", '0'), "");
    assert_eq!(trim_end_matches("1.5", '0'), "1.5");
    assert_eq!(trim_end_matches("5..", '.'), "5");
}

#[test]
fn trim_keeps_the_integer_part() {
    assert_eq!(trim("100.0000"), "100");
    assert_eq!(trim("0.0000"), "0");
    assert_eq!(trim("1.5000"), "1.5");
    assert_eq!(trim("-2.0100"), "-2.01");
    assert_eq!(trim("3.1415"), "3.1415");
}

#[test]
fn serialize_writes_up_to_four_places() {
    assert_eq!(serialize(&Amount::from_integer(50)), "50");
    assert_eq!(serialize(&Amount::zero()), "0");
    assert_eq!(serialize(&units(15_000)), "1.5");
    assert_eq!(serialize(&units(1)), "0.0001");
    assert_eq!(serialize(&units(-22_500)), "-2.25");
    assert_eq!(serialize(&units(1_000_000)), "100");
    assert_eq!(serialize(&units(-5_000)), "-0.5");
    assert_eq!(serialize(&units(-1)), "-0.0001");
    assert_eq!(serialize(&units(10_001)), "1.0001");
    assert_eq!(serialize(&units(WIDEST_MANTISSA)), "7922816251426433759354395.0335");
}

#[test]
fn serialize_writes_amounts_beyond_96_bits() {
    assert_eq!(serialize(&units(MAX_UNITS)), "79228162514264337593543950335");
    assert_eq!(serialize(&units(-MAX_UNITS)), "-79228162514264337593543950335");
    assert_eq!(serialize(&units(MAX_UNITS - 1)), "79228162514264337593543950334.9999");
    assert_eq!(serialize(&units(WIDEST_MANTISSA + 1)), "7922816251426433759354395.0336");
}

#[test]
fn join_drops_the_leading_zero_of_the_fraction() {
    assert_eq!(join(false, "7", "0.0001"), "7.0001");
    assert_eq!(join(true, "0", "0.5000"), "-0.5000");
    assert_eq!(join(false, "12", ""), "12");
    assert_eq!(join(true, "", "x"), "-");
}

#[test]
fn deserialize_reads_decimal_numbers() {
    assert_eq!(deserialize("50"), Ok(Amount::from_integer(50)));
    assert_eq!(deserialize("1.5"), Ok(units(15_000)));
    assert_eq!(deserialize("0.0001"), Ok(units(1)));
    assert_eq!(deserialize("-2.25"), Ok(units(-22_500)));
    assert_eq!(deserialize("7922816251426433759354395.0335"), Ok(units(WIDEST_MANTISSA)));
}

#[test]
fn deserialize_reads_the_largest_decimals() {
    assert_eq!(deserialize("79228162514264337593543950335"), Ok(units(MAX_UNITS)));
    assert_eq!(deserialize("-79228162514264337593543950335"), Ok(units(-MAX_UNITS)));
    assert_eq!(
        deserialize("10000000000000000000000000"),
        Ok(units(100_000_000_000_000_000_000_000_000_000))
    );
    assert_eq!(
        deserialize("7922816251426433759354395033.5"),
        Ok(units(79_228_162_514_264_337_593_543_950_335_000))
    );
}

#[test]
fn deserialize_rounds_half_to_even_at_four_places() {
    assert_eq!(deserialize("2.00005"), Ok(units(20_000)));
    assert_eq!(deserialize("2.00015"), Ok(units(20_002)));
    assert_eq!(deserialize("2.00016"), Ok(units(20_002)));
    assert_eq!(deserialize("2.00014"), Ok(units(20_001)));
    assert_eq!(deserialize("-0.00005"), Ok(Amount::zero()));
}

#[test]
fn deserialize_rejects_what_is_no_number() {
    assert_eq!(deserialize("abc"), Err(AmountError::Malformed));
    assert_eq!(deserialize(""), Err(AmountError::Malformed));
    assert_eq!(deserialize("1.2.3"), Err(AmountError::Malformed));
}

#[test]
fn deserialize_rejects_numbers_that_no_decimal_holds() {
    assert_eq!(deserialize("79228162514264337593543950336"), Err(AmountError::Malformed));
    assert_eq!(deserialize("100000000000000000000000000000"), Err(AmountError::Malformed));
}

#[test]
fn from_rounded_takes_mantissa_and_scale() {
    assert_eq!(from_rounded((15, 1)), Ok(units(15_000)));
    assert_eq!(from_rounded((15, 5)), Err(AmountError::OutOfRange));
    assert_eq!(from_rounded((WIDEST_MANTISSA, 0)), Ok(units(MAX_UNITS)));
    assert_eq!(from_rounded((WIDEST_MANTISSA + 1, 0)), Err(AmountError::OutOfRange));
}

#[test]
fn text_round_trips() {
    for n in [0i128, 1, -1, 10, 10_000, 123_456, -987_654_321, MAX_UNITS, -MAX_UNITS] {
        let text = serialize(&units(n));
        assert_eq!(deserialize(&text), Ok(units(n)));
    }
}

#[test]
fn optional_amounts_follow_the_plain_ones() {
    assert_eq!(payments_engine::high_precision_decimal_option::serialize(&None), None);
    assert_eq!(payments_engine::high_precision_decimal_option::serialize(&Some(units(15_000))), Some(String::from("1.5")));
    assert_eq!(payments_engine::high_precision_decimal_option::deserialize(None), Ok(None));
    assert_eq!(payments_engine::high_precision_decimal_option::deserialize(Some("1.5")), Ok(Some(units(15_000))));
    assert_eq!(payments_engine::high_precision_decimal_option::deserialize(Some("x")), Err(AmountError::Malformed));
}
