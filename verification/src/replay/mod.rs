//! The replay of a recorded market.

pub mod account;
pub mod export;
pub mod player;
pub mod settings;
