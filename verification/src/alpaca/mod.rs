//! Historical bars from the Alpaca Market Data API: what is asked of it, and
//! what is made of its answers.

pub mod bars;
pub mod client;
pub mod error;
pub mod types;
