//! Strategies with fixed answers: permanent trends and constant stops.
//!
//! These are useful as stubs when exercising the account state machine,
//! and as the simplest implementations of the strategy capabilities.

use crate::points::Points;
use crate::price::PriceHistory;
use crate::strategy::{RiskStrategy, RiskStrategyError, TradingStrategy, Trend};
use crate::trade::Direction;
use vstd::prelude::*;

verus! {

/// A trading strategy with no opinion: the trend is always `Neutral`.
pub struct Neutral {}

impl TradingStrategy for Neutral {
    open spec fn wf(&self) -> bool {
        true
    }

    open spec fn trend_spec(&self, history: PriceHistory) -> Trend {
        Trend::Neutral
    }

    fn trend(&self, history: &PriceHistory) -> (t: Trend) {
        Trend::Neutral
    }
}

/// A trading strategy that always sees a rising market.
pub struct Bullish {}

impl TradingStrategy for Bullish {
    open spec fn wf(&self) -> bool {
        true
    }

    open spec fn trend_spec(&self, history: PriceHistory) -> Trend {
        Trend::Bullish
    }

    fn trend(&self, history: &PriceHistory) -> (t: Trend) {
        Trend::Bullish
    }
}

/// A trading strategy that always sees a falling market.
pub struct Bearish {}

impl TradingStrategy for Bearish {
    open spec fn wf(&self) -> bool {
        true
    }

    open spec fn trend_spec(&self, history: PriceHistory) -> Trend {
        Trend::Bearish
    }

    fn trend(&self, history: &PriceHistory) -> (t: Trend) {
        Trend::Bearish
    }
}

/// A risk strategy that always places the stop at a fixed level.
pub struct ConstStop {
    pub stop: Points,
}

impl RiskStrategy for ConstStop {
    open spec fn wf(&self) -> bool {
        self.stop.wf()
    }

    open spec fn stop_spec(&self, direction: Direction, history: PriceHistory) -> Result<
        Points,
        RiskStrategyError,
    > {
        Ok(self.stop)
    }

    fn stop(&self, direction: Direction, history: &PriceHistory) -> (r: Result<
        Points,
        RiskStrategyError,
    >) {
        Ok(self.stop)
    }
}

/// A risk strategy that places the stop at the most recent mid close, so
/// the trade carries no stop distance worth protecting.
pub struct NoRisk {}

impl RiskStrategy for NoRisk {
    open spec fn wf(&self) -> bool {
        true
    }

    open spec fn stop_spec(&self, direction: Direction, history: PriceHistory) -> Result<
        Points,
        RiskStrategyError,
    > {
        if history.history@.len() == 0 {
            Err(RiskStrategyError::NotEnoughHistory)
        } else {
            Ok(Points { m: crate::price::mid_spec(history.history@[0].close) as i128 })
        }
    }

    fn stop(&self, direction: Direction, history: &PriceHistory) -> (r: Result<
        Points,
        RiskStrategyError,
    >) {
        if history.history.len() == 0 {
            Err(RiskStrategyError::NotEnoughHistory)
        } else {
            proof {
                assert(history.history@[0].wf());
                crate::price::lemma_mid_in_range(history.history@[0].close);
            }
            Ok(history.history[0].close.mid_price())
        }
    }
}

} // verus!
