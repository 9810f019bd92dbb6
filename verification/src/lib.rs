//! In-process state layer for an automated trading client.
//!
//! The library consumes a multiplexed stream of market and account events
//! and maintains derived, queryable state: recent trades, candles,
//! order-book snapshots, best bid/ask, user fills, and per-instrument
//! positions with realized and unrealized profit-and-loss.
//!
//! Prices, sizes and fees are fixed-point integers: the caller chooses a
//! scale (for example 1e-8 units) and converts at the boundary.  All
//! state transitions are specified and verified over that integer model.

pub mod discord;
pub mod dispatch;
pub mod logger;
pub mod model;
pub mod portfolio;
pub mod store;
pub mod subscriptions;
pub mod supervisor;
pub mod time_util;
