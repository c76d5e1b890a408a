//! A small proof-of-work blockchain: transactions, blocks with Merkle roots,
//! a SHA-256 proof of work checked against a big-integer target, difficulty
//! retargeting, a mempool and a chain with an integrity check.

pub mod hashing;
pub mod subtypes;
pub mod render;
pub mod transaction;
pub mod clock;
pub mod block;
pub mod bignum;
pub mod difficulty;
pub mod consensus;
pub mod blockchain;
pub mod mempool;
pub mod wallet;
pub mod mining_job;
pub mod node;
pub mod mining;
pub mod viewer;
pub mod sample;
