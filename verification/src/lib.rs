//! Decision core of a trading-signal scanner.
//!
//! Market feeds deliver ticker snapshots and individual trades for many
//! symbols.  The library scores and tiers symbols by interestingness, runs a
//! pattern-detection state machine over the highest tier, and prepares
//! rate-limited, deduplicated alerts for delivery.
//!
//! All monetary and percentage quantities are fixed-point integers:
//! prices, quantities and volumes carry eight decimal places
//! ([`types::PRICE_SCALE`]), percentages four ([`types::PCT_SCALE`]), and
//! scores six ([`types::SCORE_SCALE`]).  Feed values arrive as decimal
//! strings and are parsed (or rejected) by [`numeric`].

pub mod api;
pub mod config;
pub mod detection;
pub mod engine;
pub mod market;
pub mod numeric;
pub mod scan;
pub mod scoring;
pub mod state;
pub mod subs;
pub mod telegram;
pub mod types;
