//! An append-only hash chain with a bounded proof-of-work search.
//!
//! Every block commits to its predecessor through a SHA-256 digest of its own
//! fields. Before a block joins the chain, a nonce search looks for a digest
//! with enough leading zero digits and gives up after a fixed effort.

pub mod block;
pub mod calendar;
pub mod chain;
pub mod clock;
pub mod digest;
pub mod mining;
pub mod render;
