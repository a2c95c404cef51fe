//! The backtest: its dashboard and the numbers behind it.

pub mod curves;
pub mod dashboard;
pub mod mix;
pub mod settings;
pub mod tally;
