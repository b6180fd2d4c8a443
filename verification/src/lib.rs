//! An append-only, hash-linked ledger of transaction batches.
//!
//! Blocks are admitted through a single validation gate that enforces index
//! continuity, hash linkage, and a proof-of-work predicate on the block's
//! digest. A miner assembles candidate blocks and searches for a nonce that
//! satisfies the proof-of-work predicate; accepted blocks are encoded to a
//! self-describing wire format for broadcast to peers.

pub mod block;
pub mod blockchain;
pub mod blockcreator;
pub mod blockvalidator;
pub mod codec;
pub mod digits;
