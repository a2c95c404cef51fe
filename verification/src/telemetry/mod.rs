//! What the engine logs of a market.

pub mod alerts;
pub mod lines;
pub mod market;
pub mod read_back;
