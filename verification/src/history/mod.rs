//! Recorded markets: their rows on disk and the timeline made of them.

pub mod events;
pub mod info;
pub mod rows;
