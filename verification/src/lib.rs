//! A deterministic trading-strategy backtesting engine.
//!
//! Given a time-ordered series of price candles for one instrument, the
//! engine simulates how an automated strategy would have opened, held,
//! reversed and closed positions, producing an auditable trade ledger with
//! realized and unrealized profit and loss.  All monetary arithmetic is
//! fixed-point with six decimal places.

pub mod account;
pub mod backtest;
pub mod market;
pub mod maths;
pub mod points;
pub mod price;
pub mod strategies;
pub mod strategy;
pub mod time;
pub mod trade;
