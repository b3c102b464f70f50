//! Prices, currency amounts, candles and price history.

use crate::points::{
    div_points_spec, mul_points_spec, Points, DIV_DEN_LIMIT, DIV_NUM_LIMIT, POINTS_LIMIT, SCALE,
};
use crate::time::{Resolution, Timestamp};
use vstd::prelude::*;

verus! {

/// An opaque, equality-comparable currency tag (an ISO 4217 numeric code).
#[derive(Clone, Copy, Debug, PartialEq, Eq, Structural, Hash)]
pub struct Currency {
    pub code: u32,
}

/// A fixed-point monetary amount tagged with a currency.
///
/// Scaling by a dimensionless factor and dividing by a point distance are
/// always valid and round to six decimal places; dividing by another amount
/// is valid only when the currencies match and yields a dimensionless ratio.
#[derive(Clone, Copy, Debug, PartialEq, Eq, Structural, Hash)]
pub struct CurrencyAmount {
    pub amount: Points,
    pub currency: Currency,
}

impl CurrencyAmount {
    /// Whether the amount is within the bound kept for stored sizes.
    pub open spec fn wf(self) -> bool {
        self.amount.wf()
    }

    /// Builds an amount from a fixed-point value and a currency tag.
    pub fn new(amount: Points, currency: Currency) -> (r: CurrencyAmount)
        ensures
            r == (CurrencyAmount { amount, currency }),
    {
        CurrencyAmount { amount, currency }
    }

    /// Scales the amount by a dimensionless factor, rounding to six
    /// decimal places.
    pub fn times(self, rhs: Points) -> (r: CurrencyAmount)
        requires
            -10_000_000_000_000_000_000_000_000_000_000_000_000 <= self.amount.m * rhs.m
                <= 10_000_000_000_000_000_000_000_000_000_000_000_000,
        ensures
            r.amount.m == mul_points_spec(self.amount.m as int, rhs.m as int),
            r.currency == self.currency,
    {
        CurrencyAmount { amount: self.amount.times(rhs), currency: self.currency }
    }

    /// Divides the amount by a point distance, giving a per-point size,
    /// rounded to six decimal places.
    pub fn over_points(self, rhs: Points) -> (r: CurrencyAmount)
        requires
            rhs.m != 0,
            -DIV_DEN_LIMIT <= rhs.m <= DIV_DEN_LIMIT,
            -100_000_000_000_000_000_000_000_000_000_000 <= self.amount.m
                <= 100_000_000_000_000_000_000_000_000_000_000,
        ensures
            r.amount.m == div_points_spec(self.amount.m as int, rhs.m as int),
            r.currency == self.currency,
    {
        CurrencyAmount { amount: self.amount.over(rhs), currency: self.currency }
    }

    /// Divides by another amount of the same currency, giving a
    /// dimensionless ratio rounded to six decimal places.  Returns `None`
    /// when the currencies differ or the divisor is zero.
    pub fn ratio(self, rhs: CurrencyAmount) -> (r: Option<Points>)
        requires
            -DIV_DEN_LIMIT <= rhs.amount.m <= DIV_DEN_LIMIT,
            -100_000_000_000_000_000_000_000_000_000_000 <= self.amount.m
                <= 100_000_000_000_000_000_000_000_000_000_000,
        ensures
            r == ratio_spec(self, rhs),
    {
        if self.currency == rhs.currency && rhs.amount.m != 0 {
            Some(self.amount.over(rhs.amount))
        } else {
            None
        }
    }

    /// Adds an amount of the same currency exactly.
    pub fn plus(self, rhs: CurrencyAmount) -> (r: CurrencyAmount)
        requires
            self.currency == rhs.currency,
            -DIV_NUM_LIMIT <= self.amount.m + rhs.amount.m <= DIV_NUM_LIMIT,
        ensures
            r.amount.m == self.amount.m + rhs.amount.m,
            r.currency == self.currency,
    {
        CurrencyAmount { amount: self.amount.plus(rhs.amount), currency: self.currency }
    }

    /// Whether this amount is strictly below another of the same currency.
    pub fn lt(&self, rhs: &CurrencyAmount) -> (r: bool)
        requires
            self.currency == rhs.currency,
        ensures
            r == (self.amount.m < rhs.amount.m),
    {
        self.amount.m < rhs.amount.m
    }

    /// Whether this amount is strictly above another of the same currency.
    pub fn gt(&self, rhs: &CurrencyAmount) -> (r: bool)
        requires
            self.currency == rhs.currency,
        ensures
            r == (self.amount.m > rhs.amount.m),
    {
        self.amount.m > rhs.amount.m
    }
}

/// Specification of [`CurrencyAmount::ratio`].
pub open spec fn ratio_spec(a: CurrencyAmount, b: CurrencyAmount) -> Option<Points> {
    if a.currency == b.currency && b.amount.m != 0 {
        Some(Points { m: div_points_spec(a.amount.m as int, b.amount.m as int) as i128 })
    } else {
        None
    }
}

/// A two-sided quote: the ask is the price one buys at, the bid the price
/// one sells at, with `ask >= bid` for any real market quote.
#[derive(Clone, Copy, Debug, PartialEq, Eq, Structural, Hash)]
pub struct Price {
    pub ask: Points,
    pub bid: Points,
}

impl Price {
    /// Whether both sides are within the stored price bound.
    pub open spec fn wf(self) -> bool {
        self.ask.wf() && self.bid.wf()
    }

    /// Builds a quote from a mid price and a spread: the two sides sit half
    /// a spread above and below the mid.
    pub fn new_mid(price: Points, spread: Points) -> (r: Price)
        requires
            -POINTS_LIMIT <= price.m <= POINTS_LIMIT,
            -POINTS_LIMIT <= spread.m <= POINTS_LIMIT,
        ensures
            r.ask.m == price.m + half_spec(spread.m as int),
            r.bid.m == price.m - half_spec(spread.m as int),
    {
        let half = spread.over(Points::whole(2));
        proof {
            crate::points::lemma_round_div_range(
                spread.m * 1_000_000,
                2_000_000,
                -1_000_000_000_000_000_000,
                1_000_000_000_000_000_000,
            );
        }
        Price { ask: price.plus(half), bid: price.minus(half) }
    }

    /// The mid price: the average of bid and ask, rounded to six decimal
    /// places.
    pub fn mid_price(&self) -> (r: Points)
        requires
            self.wf(),
        ensures
            r.m == mid_spec(*self),
    {
        self.bid.plus(self.ask).over(Points::whole(2))
    }

    /// The spread: ask minus bid.
    pub fn spread(&self) -> (r: Points)
        requires
            self.wf(),
        ensures
            r.m == self.ask.m - self.bid.m,
    {
        self.ask.minus(self.bid)
    }

    /// The difference of two quotes is the difference of their mid prices.
    pub fn minus(self, rhs: Price) -> (r: Points)
        requires
            self.wf(),
            rhs.wf(),
        ensures
            r.m == mid_spec(self) - mid_spec(rhs),
    {
        proof {
            lemma_mid_in_range(self);
            lemma_mid_in_range(rhs);
        }
        self.mid_price().minus(rhs.mid_price())
    }
}

/// Half of a fixed-point value, rounded to six decimal places.
pub open spec fn half_spec(m: int) -> int {
    div_points_spec(m, 2 * SCALE)
}

/// The mid price of a quote, rounded to six decimal places.
pub open spec fn mid_spec(p: Price) -> int {
    div_points_spec(p.bid.m + p.ask.m, 2 * SCALE)
}

/// The mid price of a well-formed quote stays within the stored bound.
pub proof fn lemma_mid_in_range(p: Price)
    requires
        p.wf(),
    ensures
        -POINTS_LIMIT <= mid_spec(p) <= POINTS_LIMIT,
{
    crate::points::lemma_round_div_range(
        (p.bid.m + p.ask.m) * 1_000_000,
        2_000_000,
        -1_000_000_000_000_000_000,
        1_000_000_000_000_000_000,
    );
}

/// One OHLC candle: four quotes plus the instant the candle completed.
#[derive(Clone, Copy, Debug, PartialEq, Eq, Structural, Hash)]
pub struct Frame {
    pub close: Price,
    pub high: Price,
    pub low: Price,
    pub open: Price,
    pub close_time: Timestamp,
}

impl Frame {
    /// Whether all four quotes are in range and the close time is a valid
    /// calendar instant.
    pub open spec fn wf(self) -> bool {
        &&& self.close.wf()
    &&& self.high.wf()
    &&& self.low.wf()
    &&& self.open.wf()
    &&& self.close_time.wf()
    }
}

/// A candle period together with the candles seen so far, newest first:
/// index 0 is the most recent close.  New frames are pushed at the front
/// and the sequence is never reordered.
pub struct PriceHistory {
    pub resolution: Resolution,
    pub history: Vec<Frame>,
}

impl PriceHistory {
    /// Whether every stored frame is well-formed and the resolution in
    /// range.
    pub open spec fn wf(self) -> bool {
        &&& self.resolution.wf()
    &&& forall|i: int| 0 <= i < self.history@.len() ==> #[trigger] self.history@[i].wf()
    }
}

} // verus!
