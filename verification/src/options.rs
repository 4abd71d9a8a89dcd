//! Option contracts: their intrinsic and time value and where the underlying's price stands
//! against the strike.
//!
//! The expiry is a UTC instant in milliseconds since the epoch.
use crate::decimal::{decimal_checked_mul, decimal_checked_sub, abs_of, max_of, Dec};
use vstd::prelude::*;

verus! {

/// A call or a put.
#[derive(Debug, Clone, Copy, PartialEq, Eq, Structural)]
pub enum OptionType {
    Call,
    Put,
}

/// An option on an underlying asset.
#[derive(Debug, Clone)]
pub struct OptionContract {
    pub underlying: String,
    pub option_type: OptionType,
    pub strike: Dec,
    /// When the option expires.
    pub expiry: i64,
    /// The market price paid for the option.
    pub premium: Dec,
}

impl OptionContract {
    /// The contract with the given terms.
    pub fn new(underlying: String, option_type: OptionType, strike: Dec, expiry: i64, premium: Dec) -> (r: OptionContract)
        ensures
            r == (OptionContract { underlying, option_type, strike, expiry, premium }),
    {
        OptionContract { underlying, option_type, strike, expiry, premium }
    }

    /// What exercising now is worth at `spot`: the spot over the strike for a call, the strike
    /// over the spot for a put, and never below zero; `None` where the difference overflows.
    pub open spec fn intrinsic_spec(self, spot: Dec) -> Option<Dec> {
        let diff = match self.option_type {
            OptionType::Call => decimal_checked_sub(spot, self.strike),
            OptionType::Put => decimal_checked_sub(self.strike, spot),
        };
        match diff {
            Some(d) => Some(max_of(d, Dec::spec_zero())),
            None => None,
        }
    }

    /// The intrinsic value at `spot`.
    pub fn intrinsic_value(&self, spot: Dec) -> (r: Option<Dec>)
        ensures
            r == self.intrinsic_spec(spot),
            r matches Some(v) ==> v.value() >= 0,
    {
        let diff = match self.option_type {
            OptionType::Call => spot.checked_sub(self.strike)?,
            OptionType::Put => self.strike.checked_sub(spot)?,
        };
        Some(diff.max(Dec::zero()))
    }

    /// What the premium pays beyond the intrinsic value at `spot`; `None` on overflow.
    pub fn time_value(&self, spot: Dec) -> (r: Option<Dec>)
        ensures
            r == match self.intrinsic_spec(spot) {
                Some(v) => decimal_checked_sub(self.premium, v),
                None => None,
            },
    {
        let v = self.intrinsic_value(spot)?;
        self.premium.checked_sub(v)
    }

    /// Whether the option is in the money at `spot`: above the strike for a call, below it for
    /// a put.
    pub open spec fn in_the_money(self, spot: Dec) -> bool {
        match self.option_type {
            OptionType::Call => spot.value() > self.strike.value(),
            OptionType::Put => spot.value() < self.strike.value(),
        }
    }

    /// Whether the option is in the money at `spot`.
    pub fn is_in_the_money(&self, spot: Dec) -> (r: bool)
        ensures
            r == self.in_the_money(spot),
    {
        match self.option_type {
            OptionType::Call => spot.gt(&self.strike),
            OptionType::Put => spot.lt(&self.strike),
        }
    }

    /// Whether the option is out of the money at `spot`: exactly when it is not in the money.
    pub fn is_out_of_the_money(&self, spot: Dec) -> (r: bool)
        ensures
            r == !self.in_the_money(spot),
    {
        !self.is_in_the_money(spot)
    }

    /// Whether the spot is within 1% of the strike: `|spot - strike| <= strike * 0.01`;
    /// `None` where a step overflows.
    pub open spec fn at_the_money_spec(self, spot: Dec) -> Option<bool> {
        match (decimal_checked_sub(spot, self.strike), decimal_checked_mul(self.strike, Dec::spec_new(1, 2))) {
            (Some(d), Some(t)) => Some(abs_of(d).value() <= t.value()),
            _ => None,
        }
    }

    /// Whether the spot is within 1% of the strike.
    pub fn is_at_the_money(&self, spot: Dec) -> (r: Option<bool>)
        ensures
            r == self.at_the_money_spec(spot),
    {
        let diff = spot.checked_sub(self.strike)?;
        let threshold = self.strike.checked_mul(Dec::new(1, 2))?;
        Some(diff.abs().le(&threshold))
    }
}

} // verus!
