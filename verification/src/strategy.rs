//! Strategy capabilities: trend detection and risk management.

use crate::points::{abs_spec, div_points_spec, Points, BALANCE_LIMIT};
use crate::price::{CurrencyAmount, PriceHistory};
use crate::trade::{Direction, Entry};
use vstd::prelude::*;

verus! {

/// A three-state directional bias.
#[derive(Clone, Copy, Debug, PartialEq, Eq, Structural, Hash)]
pub enum Trend {
    Neutral,
    Bullish,
    Bearish,
}

/// Why a risk strategy could not place a stop.
#[derive(Clone, Copy, Debug, PartialEq, Eq, Structural, Hash)]
pub enum RiskStrategyError {
    /// Not enough history to place a stop-loss safely.
    NotEnoughHistory,
}

/// A trading strategy estimates the trend of the market from the price
/// history alone.  Implementations return `Neutral` when the history is
/// too short to judge, never an error.
pub trait TradingStrategy: Sized {
    /// Whether this strategy's parameters are in range.
    spec fn wf(&self) -> bool;

    /// What [`TradingStrategy::trend`] computes.
    spec fn trend_spec(&self, history: PriceHistory) -> Trend;

    /// The trend read from the history; a pure function of it.
    fn trend(&self, history: &PriceHistory) -> (t: Trend)
        requires
            self.wf(),
            history.wf(),
        ensures
            t == self.trend_spec(*history),
    ;
}

/// The price at which an entry in the given direction would execute: the
/// most recent close, on the side the trader must cross.
pub open spec fn entry_price_spec(direction: Direction, history: PriceHistory) -> Points
    recommends
        history.history@.len() > 0,
{
    if direction is Buy {
        history.history@[0].close.ask
    } else {
        history.history@[0].close.bid
    }
}

/// What a successful [`RiskStrategy::entry`] returns, given the stop the
/// strategy placed: the most recent close on the crossing side, a size of
/// the risk budget divided by the stop distance, and an empty position
/// identifier, to be assigned by the caller.
pub open spec fn entry_fields_spec(
    en: Entry,
    direction: Direction,
    history: PriceHistory,
    risk: CurrencyAmount,
    stop: Points,
) -> bool {
    let price = entry_price_spec(direction, history);
    &&& en.position_id@ == Seq::<char>::empty()
&&& en.direction == direction
&&& en.price == price
&&& en.stop == stop
&&& en.size.amount.m == div_points_spec(
        risk.amount.m as int,
        abs_spec(price.m - stop.m),
    )
&&& en.size.currency == risk.currency
&&& en.time == history.history@[0].close_time
}

/// What [`RiskStrategy::entry`] returns: the stop error unchanged, or an
/// entry built from the computed stop.
pub open spec fn entry_result_spec(
    r: Result<Entry, RiskStrategyError>,
    stop_r: Result<Points, RiskStrategyError>,
    direction: Direction,
    history: PriceHistory,
    risk: CurrencyAmount,
) -> bool {
    match stop_r {
        Err(e) => r == Err::<Entry, RiskStrategyError>(e),
        Ok(stop) => match r {
            Ok(en) => entry_fields_spec(en, direction, history, risk, stop),
            Err(_) => false,
        },
    }
}

/// A risk strategy decides stop-loss placement, and from it trade sizing.
pub trait RiskStrategy: Sized {
    /// Whether this strategy's parameters are in range.
    spec fn wf(&self) -> bool;

    /// What [`RiskStrategy::stop`] computes.
    spec fn stop_spec(&self, direction: Direction, history: PriceHistory) -> Result<
        Points,
        RiskStrategyError,
    >;

    /// The stop level for a new position in the given direction, or
    /// `NotEnoughHistory` when the history is shorter than the strategy's
    /// window.
    fn stop(&self, direction: Direction, history: &PriceHistory) -> (r: Result<
        Points,
        RiskStrategyError,
    >)
        requires
            self.wf(),
            history.wf(),
        ensures
            r == self.stop_spec(direction, *history),
            r matches Ok(p) ==> p.wf(),
    ;

    /// A fully formed entry: the stop from [`RiskStrategy::stop`], the most
    /// recent close price on the side the trader must cross, and a size
    /// that spends the whole risk budget at the stop distance.  Propagates
    /// `NotEnoughHistory` unchanged.  The caller keeps the entry price off
    /// the stop level, since a zero stop distance cannot size a trade.
    fn entry(&self, direction: Direction, history: &PriceHistory, risk: CurrencyAmount) -> (r:
        Result<Entry, RiskStrategyError>)
        requires
            self.wf(),
            history.wf(),
            -BALANCE_LIMIT <= risk.amount.m <= BALANCE_LIMIT,
            self.stop_spec(direction, *history) matches Ok(s) ==> history.history@.len() > 0
                && entry_price_spec(direction, *history).m != s.m,
        ensures
            entry_result_spec(r, self.stop_spec(direction, *history), direction, *history, risk),
    {
        let stop = match self.stop(direction, history) {
            Err(e) => {
                return Err(e);
            },
            Ok(s) => s,
        };
        // Assuming immediate execution; in live trading slippage would
        // shift the size slightly.
        proof {
            assert(history.history@[0].wf());
        }
        let latest_close = history.history[0].close;
        let price = match direction {
            Direction::Buy => latest_close.ask,
            Direction::Sell => latest_close.bid,
        };
        let time = history.history[0].close_time;
        // The size of the trade (per point) is the total acceptable risk
        // divided by the distance to the stop-loss level.
        assert(stop.wf());
        let stop_distance = price.minus(stop).abs_val();
        let size = risk.over_points(stop_distance);
        let position_id = String::new();
        Ok(Entry { position_id, direction, price, stop, size, time })
    }
}

} // verus!
