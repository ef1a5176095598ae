//! A market-data feed library: a sequence-numbered order-book
//! synchronization engine with batched ticker/trade caching, a
//! reconnecting transport state machine, and exact fixed-point prices.

pub mod decimal;
pub mod levels;
pub mod book;
pub mod errors;
pub mod types;
pub mod session;
pub mod text;
pub mod cache;
pub mod batch;
pub mod router;
