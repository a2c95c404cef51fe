//! The decisions of a running market.

pub mod book;
pub mod cycle;
pub mod pipeline;
pub mod risk;
pub mod runner;
pub mod state;
