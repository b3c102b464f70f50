//! Static trading rules for one instrument, used to validate proposed
//! entries.

use crate::points::{abs_spec, mul_points_spec, Points};
use crate::price::CurrencyAmount;
use crate::trade::Entry;
use vstd::prelude::*;

verus! {

/// Trading rules of a market: the margin factor is the fraction of
/// notional exposure held as required margin; entries below the minimum
/// deal size or with a stop closer than the minimum distance are rejected.
pub struct Market {
    pub code: String,
    pub margin_factor: Points,
    pub min_deal_size: CurrencyAmount,
    pub min_stop_distance: Points,
}

/// Why a proposed entry was rejected.
#[derive(Clone, Copy, Debug, PartialEq, Eq, Structural, Hash)]
pub enum MarketError {
    DealTooSmall,
    StopTooClose,
    InsufficientBalance,
}

/// The mantissa of the margin a market requires for an entry: size times
/// price times margin factor, each product rounded to six decimal places.
pub open spec fn margin_spec(m: Market, e: Entry) -> int {
    mul_points_spec(
        mul_points_spec(e.size.amount.m as int, e.price.m as int),
        m.margin_factor.m as int,
    )
}

/// What [`Market::validate_entry`] decides: the first failed check wins.
pub open spec fn validate_spec(m: Market, e: Entry, balance: CurrencyAmount) -> Result<
    (),
    MarketError,
> {
    if e.size.amount.m < m.min_deal_size.amount.m {
        Err(MarketError::DealTooSmall)
    } else if margin_spec(m, e) > balance.amount.m {
        Err(MarketError::InsufficientBalance)
    } else if abs_spec(e.price.m - e.stop.m) < m.min_stop_distance.m {
        Err(MarketError::StopTooClose)
    } else {
        Ok(())
    }
}

impl Market {
    /// The margin factor is a fraction and the thresholds are in range.
    pub open spec fn wf(self) -> bool {
        &&& 0 <= self.margin_factor.m <= 1_000_000
    &&& self.min_deal_size.wf()
    &&& self.min_stop_distance.wf()
    }

    /// Checks a proposed entry against the market's rules, in order:
    /// minimum size, margin against the balance, minimum stop distance.
    /// Returns the first failure; purely advisory, with no side effects.
    pub fn validate_entry(&self, order: &Entry, balance: CurrencyAmount) -> (r: Result<
        (),
        MarketError,
    >)
        requires
            self.wf(),
            order.price.wf(),
            order.stop.wf(),
            order.size.currency == self.min_deal_size.currency,
            order.size.currency == balance.currency,
            -10_000_000_000_000_000_000_000_000 <= order.size.amount.m * order.price.m
                <= 10_000_000_000_000_000_000_000_000,
        ensures
            r == validate_spec(*self, *order, balance),
    {
        if order.size.lt(&self.min_deal_size) {
            return Err(MarketError::DealTooSmall);
        }
        proof {
            crate::points::lemma_round_div_range(
                order.size.amount.m * order.price.m,
                1_000_000,
                -10_000_000_000_000_000_000,
                10_000_000_000_000_000_000,
            );
            assert(-10_000_000_000_000_000_000_000_000 <= mul_points_spec(
                order.size.amount.m as int,
                order.price.m as int,
            ) * self.margin_factor.m <= 10_000_000_000_000_000_000_000_000) by (nonlinear_arith)
                requires
                    -10_000_000_000_000_000_000 <= mul_points_spec(
                        order.size.amount.m as int,
                        order.price.m as int,
                    ) <= 10_000_000_000_000_000_000,
                    0 <= self.margin_factor.m <= 1_000_000,
            ;
        }
        let margin = order.size.times(order.price).times(self.margin_factor);
        if margin.gt(&balance) {
            return Err(MarketError::InsufficientBalance);
        }
        if order.price.minus(order.stop).abs_val().m < self.min_stop_distance.m {
            return Err(MarketError::StopTooClose);
        }
        Ok(())
    }
}

} // verus!
