//! The consensus core of a small replicated ledger: blocks and transactions,
//! the proof-of-work puzzle, and the rules by which a node applies what its
//! peers send.

pub mod digest;
pub mod encoding;
pub mod blockchain;
pub mod peers;
pub mod replication;
