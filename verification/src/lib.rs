//! Block-to-mutation reducer for on-chain handle assets.
//!
//! The library walks a decoded ledger block, classifies the assets held by
//! consumed and produced outputs against a configured issuing policy, and
//! emits idempotent key-value mutation commands that keep a bidirectional
//! handle/address projection up to date.

pub mod addresses;
pub mod commands;
pub mod hex;
pub mod laws;
pub mod merge;
pub mod model;
pub mod reducer;
pub mod text;
