//! Verified core of an asset-rebalancing and fee-routing protocol.
//!
//! The library decides, in exact integer arithmetic, how to convert a basket
//! of reward tokens into a single target asset by routing swaps through a
//! configured graph of bridge tokens, how to split the collected balance
//! across weighted recipients, and how to rebalance a two-asset deposit to a
//! constant-product pool's reserve ratio before providing liquidity.
//!
//! All chain interaction (queries, message dispatch, storage) lives outside
//! this crate; every function here is a total, verified computation on plain
//! values.

pub mod asset;
pub mod bridge;
pub mod collector;
pub mod compound;
pub mod solver;
pub mod error;
pub mod farm;
pub mod generator;
pub mod ops;
pub mod quote;
pub mod wide;
