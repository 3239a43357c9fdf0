//! Amounts that may be absent, as text.

use vstd::prelude::*;
use crate::amount::Amount;
use crate::high_precision_decimal::{amount_is, text_of_units, units_of_text, AmountError};

verus! {

/// Writes the amount, if there is one.
pub fn serialize(decimal_opt: &Option<Amount>) -> (r: Option<String>)
    ensures
        r.is_some() == decimal_opt.is_some(),
        r matches Some(text) ==> text@ == text_of_units(decimal_opt.unwrap()@),
{
    match decimal_opt {
        Some(decimal) => Some(crate::high_precision_decimal::serialize(decimal)),
        None => None,
    }
}

/// Reads the amount of a field that may be absent. An absent field is no
/// amount; a field that is present must hold a decimal number.
pub fn deserialize(text_opt: Option<&str>) -> (r: Result<Option<Amount>, AmountError>)
    ensures
        match text_opt {
            None => r == Ok::<Option<Amount>, AmountError>(None),
            Some(text) => match r {
                Ok(opt) => opt.is_some() && amount_is(Ok(opt.unwrap()), units_of_text(text@)),
                Err(e) => amount_is(Err(e), units_of_text(text@)),
            },
        },
{
    match text_opt {
        Some(text) => match crate::high_precision_decimal::deserialize(text) {
            Ok(decimal) => Ok(Some(decimal)),
            Err(e) => Err(e),
        },
        None => Ok(None),
    }
}

} // verus!
