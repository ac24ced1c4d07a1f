//! Core of a pan/zoom candlestick chart.
//!
//! The chart's logic is split into: a tick generator driving a bounded random
//! walk of integer prices, an OHLC bar aggregator, an exact-rational viewport
//! transform with anchor-preserving zoom, and the pointer-gesture state
//! machine that mutates the transform. Window creation and rendering are left
//! to the host program.

pub mod rat;
pub mod ticks;
pub mod bars;
pub mod viewport;
pub mod controller;

pub use rat::Rat;
pub use bars::{make_prices, OHLC};
pub use ticks::max;
pub use ticks::TickGenerator;
