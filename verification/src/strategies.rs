//! Concrete strategy implementations.

pub mod constant;
pub mod donchian;
pub mod macd;
