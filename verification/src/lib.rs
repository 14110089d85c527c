//! A single-node participant of a proof-of-work ledger network.
//!
//! The node keeps a chain of blocks, a pool of pending transactions and a
//! registry of peers. Blocks are bound to their predecessor by a SHA-256
//! fingerprint of a fixed textual form, new blocks are authorised by a
//! proof-of-work puzzle, and diverging copies of the ledger are reconciled by
//! the longest-valid-chain rule.

pub mod api;
pub mod block;
pub mod blockchain;
pub mod consensus;
pub mod digest;
pub mod error;
pub mod laws;
pub mod peers;
pub mod reading;
pub mod text;
pub mod timestamp;
