//! Placing orders.

pub mod order;
pub mod records;
