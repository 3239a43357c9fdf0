//! Fixed-point money amounts with four fractional digits.

use vstd::prelude::*;
use crate::decimal::MAX_MANTISSA;

verus! {

/// Largest magnitude an amount can hold, counted in ten-thousandths: the
/// largest whole number of 96 bits, 2^96 - 1, times ten thousand. Every decimal
/// of at most 96 bits of mantissa and at most four fractional digits is in range.
pub const MAX_UNITS: i128 = 792_281_625_142_643_375_935_439_503_350_000;

/// Number of ten-thousandths in one whole unit.
pub const UNITS_PER_WHOLE: i128 = 10_000;

/// Whether a count of ten-thousandths can be held by an [`Amount`].
pub open spec fn fits(units: int) -> bool {
    -MAX_UNITS <= units <= MAX_UNITS
}

/// Ten-thousandths per step of a mantissa written with `scale` fractional digits.
pub open spec fn scale_factor(scale: nat) -> int {
    if scale == 0 {
        10_000
    } else if scale == 1 {
        1_000
    } else if scale == 2 {
        100
    } else if scale == 3 {
        10
    } else {
        1
    }
}

/// The ten-thousandths denoted by `mantissa / 10^scale`, where an amount can hold it.
pub open spec fn units_of_parts(mantissa: int, scale: nat) -> Option<int> {
    if scale <= 4 && fits(mantissa * scale_factor(scale)) {
        Some(mantissa * scale_factor(scale))
    } else {
        None
    }
}

/// An exact decimal amount, stored as a whole number of ten-thousandths.
#[derive(Clone, Copy, Debug, PartialEq, Eq, Structural)]
pub struct Amount {
    units: i128,
}

impl View for Amount {
    type V = int;

    closed spec fn view(&self) -> int {
        self.units as int
    }
}

impl Amount {
    #[verifier::type_invariant]
    closed spec fn in_range(self) -> bool {
        fits(self.units as int)
    }

    /// The amount zero.
    pub fn zero() -> (r: Amount)
        ensures
            r@ == 0,
    {
        Amount { units: 0 }
    }

    /// The amount of `units` ten-thousandths, unless that is out of range.
    pub fn from_units(units: i128) -> (r: Option<Amount>)
        ensures
            r.is_some() == fits(units as int),
            r matches Some(a) ==> a@ == units,
    {
        if -MAX_UNITS <= units && units <= MAX_UNITS {
            Some(Amount { units })
        } else {
            None
        }
    }

    /// The amount of `whole` units with no fractional part.
    pub fn from_integer(whole: i64) -> (r: Amount)
        ensures
            r@ == whole * 10_000,
    {
        let wide: i128 = whole as i128;
        Amount { units: wide * UNITS_PER_WHOLE }
    }

    /// The amount `mantissa / 10^scale`, where it has at most four fractional
    /// digits and is in range.
    pub fn from_parts(mantissa: i128, scale: u32) -> (r: Option<Amount>)
        ensures
            r.is_some() == units_of_parts(mantissa as int, scale as nat).is_some(),
            r matches Some(a) ==> Some(a@) == units_of_parts(mantissa as int, scale as nat),
            scale <= 4 && -MAX_MANTISSA <= mantissa <= MAX_MANTISSA ==> r.is_some(),
    {
        if scale > 4 || mantissa < -MAX_UNITS || mantissa > MAX_UNITS {
            proof {
                if scale <= 4 {
                    assert(!fits(mantissa * scale_factor(scale as nat))) by (nonlinear_arith)
                        requires
                            mantissa < -MAX_UNITS || mantissa > MAX_UNITS,
                            1 <= scale_factor(scale as nat),
                    ;
                }
            }
            return None;
        }
        let factor: i128 = if scale == 0 {
            10_000
        } else if scale == 1 {
            1_000
        } else if scale == 2 {
            100
        } else if scale == 3 {
            10
        } else {
            1
        };
        assert(-MAX_UNITS * 10_000 <= mantissa * factor <= MAX_UNITS * 10_000) by (nonlinear_arith)
            requires
                -MAX_UNITS <= mantissa <= MAX_UNITS,
                1 <= factor <= 10_000,
        ;
        assert(-MAX_MANTISSA <= mantissa <= MAX_MANTISSA ==> -MAX_MANTISSA * 10_000 <= mantissa
            * factor <= MAX_MANTISSA * 10_000) by (nonlinear_arith)
            requires
                1 <= factor <= 10_000,
        ;
        Amount::from_units(mantissa * factor)
    }

    /// This amount in ten-thousandths.
    pub fn units(&self) -> (r: i128)
        ensures
            r == self@,
            fits(r as int),
    {
        proof {
            use_type_invariant(self);
        }
        self.units
    }

    /// The sum of two amounts, unless it is out of range.
    pub fn checked_add(self, other: Amount) -> (r: Option<Amount>)
        ensures
            r.is_some() == fits(self@ + other@),
            r matches Some(a) ==> a@ == self@ + other@,
    {
        let x: i128 = self.units();
        let y: i128 = other.units();
        Amount::from_units(x + y)
    }

    /// The difference of two amounts, unless it is out of range.
    pub fn checked_sub(self, other: Amount) -> (r: Option<Amount>)
        ensures
            r.is_some() == fits(self@ - other@),
            r matches Some(a) ==> a@ == self@ - other@,
    {
        let x: i128 = self.units();
        let y: i128 = other.units();
        Amount::from_units(x - y)
    }
}

} // verus!
