//! A risk and reward engine for equity and crypto positions.
//!
//! Every real-valued quantity is a fixed-point integer counted in millionths
//! (see [`fixed::SCALE`]): a probability of 0.6 is `600_000`, a return of -2%
//! is `-20_000`, a price of $12.50 is `12_500_000`. Ratios and averages are
//! computed exactly over the integers and rounded down once, at the end.

pub mod config;
pub mod crypto;
pub mod error;
pub mod fixed;
pub mod format;
pub mod kelly;
pub mod models;
pub mod options;
pub mod portfolio;
pub mod risk;
