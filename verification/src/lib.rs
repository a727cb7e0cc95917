//! A simulated trading desk: a bounded price cache, per-account portfolios,
//! synthetic tick and trade producers, and the periodic statistics reporter.

pub mod error;
pub mod ipc;
pub mod models;
pub mod portfolio;
pub mod random;
pub mod recency;
pub mod security_cache;
pub mod stats;
pub mod store;
pub mod tick_feed;
pub mod trade_feed;
