//! Trading logic for short-lived "up or down" crypto markets.

pub mod analyzer;
pub mod backtest;
pub mod config;
pub mod csv;
pub mod engine;
pub mod feeds;
pub mod gateway;
pub mod history;
pub mod json;
pub mod keys;
pub mod market;
pub mod math;
pub mod names;
pub mod number;
pub mod probe;
pub mod recorder;
pub mod redeem;
pub mod replay;
pub mod sort;
pub mod strategies;
pub mod table;
pub mod telemetry;
pub mod text;
pub mod types;
