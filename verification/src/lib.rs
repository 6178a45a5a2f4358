//! Verified core of an algorithmic perpetual-futures trading engine.
//!
//! All prices, quantities and money amounts are fixed-point integers:
//! a price is an `i64` number of ticks on a grid chosen by the caller,
//! money amounts are `i64` cents, and asset sizes are `i64` millionths
//! of a unit. Smoothed indicator values carry an extra factor of
//! `SMOOTH_SCALE` so that Wilder-style recursive averages keep their
//! precision without floating point.

use vstd::prelude::*;

pub mod arbitrage;
pub mod backtest;
pub mod clock;
pub mod coinbase;
pub mod control;
pub mod exchange;
pub mod executor;
pub mod feed;
pub mod history;
pub mod indicators;
pub mod numeric;
pub mod replay;
pub mod strategy;
pub mod orderbook;
pub mod position;

verus! {

/// Extra precision factor carried by smoothed indicator values.
pub const SMOOTH_SCALE: i64 = 1_000_000;

/// Largest price (in ticks) the indicator kernels accept; keeps all
/// intermediate products inside `i128` and all state inside `i64`.
pub const PRICE_LIMIT: i64 = 1_000_000_000_000;

} // verus!
