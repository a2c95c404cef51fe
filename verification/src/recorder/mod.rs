//! Recording of markets: what is written down of the feeds.

pub mod lines;
pub mod quotes;
pub mod read_back;
pub mod session;
