//! Watches a blockchain data provider for newly mined blocks.
//!
//! The library holds the logic of a small block-announcing bot: walking
//! parent pointers backwards from the current chain tip to the last block
//! seen, rendering the discovered blocks as a text message, and deciding,
//! once per polling tick, how shared state advances and when a failure
//! notice may be dispatched. Network fetches and message delivery are left
//! to the surrounding program, which feeds their results in as events.

pub mod block;
pub mod message;
pub mod numfmt;
pub mod reconcile;
pub mod scheduler;
pub mod timefmt;
