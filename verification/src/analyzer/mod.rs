//! Offline per-strategy performance figures from the logs of past markets.

pub mod args;
pub mod report;
pub mod rows;
pub mod tally;
