//! The proof-of-work search: trying nonces until the block hash meets the
//! target.

use crate::bignum::be_le;
use crate::consensus::valid_block;
use crate::block::{block_hash, lemma_tx_views_push, merkle_root_of, tx_views, Block, BlockView};
use crate::difficulty::meets_target;
use crate::mining_job::MiningJob;
use crate::transaction::Transaction;
use vstd::prelude::*;

verus! {

/// The hash a block would have with `nonce` in place of its own.
pub open spec fn hash_with_nonce(b: BlockView, nonce: u64) -> Seq<u8> {
    block_hash(BlockView { nonce: nonce, ..b })
}

/// Whether `mined` is a solution of `job`: it holds the job's transactions on
/// top of the job's parent, carries its own hash, meets the job's target, and
/// its nonce is the smallest that does.
pub open spec fn solves_job(job: &MiningJob, mined: BlockView) -> bool {
    &&& mined.transactions == tx_views(job.transactions@)
    &&& mined.previous_hash == Some(job.parent_block_hash@)
    &&& mined.timestamp is None
    &&& mined.merkle_root == merkle_root_of(mined.transactions)
    &&& mined.hash == block_hash(mined)
    &&& meets_target(mined.hash, job.difficulty@)
    &&& forall|n: u64| n < mined.nonce ==> !meets_target(hash_with_nonce(mined, n), job.difficulty@)
}

/// A block mined for a job is accepted as the successor of the block the job
/// builds on, by a consensus whose target is the job's.
pub proof fn lemma_mined_block_is_valid(
    job: &MiningJob,
    last: BlockView,
    target: Seq<u8>,
    mined: BlockView,
)
    requires
        job.parent_block_hash@ == last.hash,
        job.difficulty@ == target,
        solves_job(job, mined),
    ensures
        valid_block(target, last, mined),
{
}

/// Tries the nonces from the block's own upward, setting `hash` to the hash of
/// each, and stops at the first whose hash meets `target` (returning true) or
/// after trying `u64::MAX` (returning false). Only `nonce` and `hash` change,
/// and the block is left with the hash of the last nonce tried.
pub fn search_nonce(block: &mut Block, target: &[u8]) -> (found: bool)
    ensures
        final(block).transactions == old(block).transactions,
        final(block).previous_hash == old(block).previous_hash,
        final(block).timestamp == old(block).timestamp,
        final(block).merkle_root == old(block).merkle_root,
        old(block).nonce <= final(block).nonce,
        forall|n: u64|
            old(block).nonce <= n < final(block).nonce ==> !meets_target(
                hash_with_nonce(old(block)@, n),
                target@,
            ),
        final(block).hash@ == block_hash(final(block)@),
        found ==> meets_target(final(block).hash@, target@),
        !found ==> final(block).nonce == u64::MAX,
        !found ==> forall|n: u64|
            old(block).nonce <= n ==> !meets_target(hash_with_nonce(old(block)@, n), target@),
{
    let ghost start = *block;
    loop
        invariant
            block.transactions == start.transactions,
            block.previous_hash == start.previous_hash,
            block.timestamp == start.timestamp,
            block.merkle_root == start.merkle_root,
            start == *old(block),
            start.nonce <= block.nonce,
            forall|n: u64|
                start.nonce <= n < block.nonce ==> !meets_target(
                    hash_with_nonce(start@, n),
                    target@,
                ),
        decreases u64::MAX - block.nonce,
    {
        block.hash = block.calculate_hash();
        assert(block@.transactions == start@.transactions);
        assert(block_hash(block@) == hash_with_nonce(start@, block.nonce));
        if be_le(block.hash.0.as_slice(), target) {
            return true;
        }
        if block.nonce == u64::MAX {
            return false;
        }
        block.nonce = block.nonce + 1;
    }
}

/// Mines a block for `job`: a new block over the job's transactions on top of
/// its parent, with the first nonce from 0 whose hash meets the target. `None`
/// when no nonce up to `u64::MAX` does.
pub fn mine_block(job: &MiningJob) -> (mined: Option<Block>)
    ensures
        mined matches Some(b) ==> solves_job(job, b@),
        mined is None ==> forall|n: u64|
            !meets_target(
                hash_with_nonce(
                    BlockView {
                        timestamp: None,
                        previous_hash: Some(job.parent_block_hash@),
                        hash: crate::block::zero_hash(),
                        nonce: 0,
                        merkle_root: merkle_root_of(tx_views(job.transactions@)),
                        transactions: tx_views(job.transactions@),
                    },
                    n,
                ),
                job.difficulty@,
            ),
{
    let mut transactions: Vec<Transaction> = Vec::new();
    let n = job.transactions.len();
    let mut i: usize = 0;
    while i < n
        invariant
            0 <= i <= n,
            n == job.transactions@.len(),
            tx_views(transactions@) == tx_views(job.transactions@).take(i as int),
        decreases n - i,
    {
        let copy = job.transactions[i].duplicate();
        proof {
            lemma_tx_views_push(transactions@, copy);
        }
        transactions.push(copy);
        assert(tx_views(transactions@) =~= tx_views(job.transactions@).take(i + 1));
        i += 1;
    }
    assert(tx_views(job.transactions@).take(n as int) =~= tx_views(job.transactions@));
    let mut block = Block::new(transactions, Some(job.parent_block_hash));
    let ghost fresh = block@;
    if search_nonce(&mut block, job.difficulty.as_slice()) {
        assert(block@.transactions == fresh.transactions);
        assert forall|m: u64| m < block.nonce implies !meets_target(
            hash_with_nonce(block@, m),
            job.difficulty@,
        ) by {
            assert(block@.previous_hash == fresh.previous_hash);
            assert(hash_with_nonce(block@, m) == hash_with_nonce(fresh, m));
        }
        Some(block)
    } else {
        None
    }
}

} // verus!
