//! Finding the market to trade.

pub mod dates;
pub mod discovery;
