//! Rolling statistics of the trade stream.

pub mod ewma;
pub mod regime;
pub mod vwap;
pub mod window;
