//! Aggregation of processor utilisation readings into bounded, smoothed
//! histories that a display can read at any time.
//!
//! Readings are fixed-point integers: one unit is a thousandth of a percent,
//! so a fully busy processor reads `FULL_USAGE`.

pub mod smoother;
pub mod rolling_window;
pub mod series_track;
pub mod sample;
pub mod engine;
pub mod channel;
pub mod monitor;
