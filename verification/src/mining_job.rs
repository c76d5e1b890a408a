//! The work handed to a miner.

use crate::subtypes::Hash256;
use crate::transaction::Transaction;
use vstd::prelude::*;

verus! {

/// A mining job: the parent to build on, the target to meet (big-endian
/// bytes), the transactions to include, the intended block time and the
/// height of the chain.
#[derive(Debug)]
pub struct MiningJob {
    pub parent_block_hash: Hash256,
    pub difficulty: Vec<u8>,
    pub transactions: Vec<Transaction>,
    pub target_block_time: u64,
    pub height: u64,
}

} // verus!
