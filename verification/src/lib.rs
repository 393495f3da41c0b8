//! Event-driven trading executor core.
//!
//! The library holds the verified logic of the executor: launch-event
//! normalisation, classification, compliance and gating, deduplication,
//! position and price arithmetic, the risk guards (equity floor, portfolio
//! stop-loss, adaptive slippage sentinel), kill-switch labelling, metric
//! counters, and the replay-file event codec.  Money amounts, liquidity,
//! prices and slippage are fixed-point integers in micro units (one millionth),
//! matching the USDC minor unit; scores are in per-mille.

pub mod classifier;

pub mod codec;

pub mod compliance;

pub mod dedup;

pub mod event;

pub mod feed;

pub mod metrics;

pub mod numeric;

pub mod risk;

pub mod text;

pub mod trader;

