//! The decisions a node takes about its chain, its consensus state and its
//! mempool; the locks, the network and the event channel stay outside.

use crate::bignum::be_value;
use crate::block::{block_hash, tx_views, zero_hash, Block};
use crate::blockchain::Blockchain;
use crate::clock::{elapsed_whole_seconds, Timestamp};
use crate::consensus::{retarget, Consensus, State, ADJUSTMENT_INTERVAL, TARGET_BLOCK_TIME};
use crate::difficulty::Difficulty;
use crate::mempool::Mempool;
use crate::mining_job::MiningJob;
use crate::transaction::copy_bytes;
use vstd::prelude::*;

verus! {

/// The first target of a node: 0x00000fff...ff, 32 bytes big-endian.
pub open spec fn initial_target_bytes() -> Seq<u8> {
    seq![0u8, 0u8, 0x0fu8] + Seq::new(29, |i: int| 0xffu8)
}

/// The first target of a node (see `initial_target_bytes`).
pub fn initial_target() -> (target: Vec<u8>)
    ensures
        target@ == initial_target_bytes(),
{
    let mut target: Vec<u8> = Vec::new();
    target.push(0u8);
    target.push(0u8);
    target.push(0x0fu8);
    let mut i: usize = 0;
    while i < 29
        invariant
            0 <= i <= 29,
            target@ == seq![0u8, 0u8, 0x0fu8] + Seq::new(i as nat, |k: int| 0xffu8),
        decreases 29 - i,
    {
        target.push(0xffu8);
        assert(seq![0u8, 0u8, 0x0fu8] + Seq::new((i + 1) as nat, |k: int| 0xffu8) =~= (seq![
            0u8,
            0u8,
            0x0fu8,
        ] + Seq::new(i as nat, |k: int| 0xffu8)).push(0xffu8));
        i += 1;
    }
    target
}

/// The consensus state a node starts with: the initial target, and a window
/// that starts at `now`.
pub fn initial_state(now: Timestamp) -> (state: State)
    ensures
        state.difficulty.target@ == initial_target_bytes(),
        state.start_window_time == now,
{
    State { difficulty: Difficulty { target: initial_target() }, start_window_time: now }
}

/// The genesis block: no transactions, no parent, nonce 0, and its own hash.
pub fn genesis_block() -> (genesis: Block)
    ensures
        genesis.transactions@.len() == 0,
        genesis.previous_hash is None,
        genesis.timestamp is None,
        genesis.nonce == 0,
        genesis.merkle_root@ == zero_hash(),
        genesis.hash@ == block_hash(genesis@),
{
    let mut genesis = Block::new(Vec::new(), None);
    genesis.hash = genesis.calculate_hash();
    genesis
}

/// Appends `block` to the chain; when the chain's length becomes a multiple
/// of `ADJUSTMENT_INTERVAL`, retargets with `now` as the end of the window.
/// Returns whether it retargeted.
pub fn push_block(chain: &mut Blockchain, consensus: &mut Consensus, block: Block, now: Timestamp) -> (adjusted: bool)
    requires
        elapsed_whole_seconds(old(consensus).state.start_window_time, now) <= i64::MAX,
    ensures
        final(chain).blocks@ == old(chain).blocks@.push(block),
        adjusted == (final(chain).blocks@.len() % (ADJUSTMENT_INTERVAL as nat) == 0),
        adjusted ==> be_value(final(consensus).state.difficulty.target@) == retarget(
            be_value(old(consensus).state.difficulty.target@),
            elapsed_whole_seconds(old(consensus).state.start_window_time, now),
        ),
        adjusted ==> final(consensus).state.start_window_time == now,
        !adjusted ==> *final(consensus) == *old(consensus),
{
    chain.blocks.push(block);
    if chain.blocks.len() % (ADJUSTMENT_INTERVAL as usize) == 0 {
        consensus.state.adjust_difficulty(now);
        consensus.state.start_window_time = now;
        true
    } else {
        false
    }
}

/// How many of `n` successive `push_block` calls on a chain of `start`
/// blocks retarget: the calls after which the length, `start + k` for the
/// k-th call, is a multiple of `ADJUSTMENT_INTERVAL`.
pub open spec fn retargets_in_run(start: nat, n: nat) -> nat
    decreases n,
{
    if n == 0 {
        0
    } else {
        retargets_in_run(start, (n - 1) as nat) + if (start + n) % (ADJUSTMENT_INTERVAL as nat)
            == 0 {
            1nat
        } else {
            0nat
        }
    }
}

/// A run of pushes retargets once per `ADJUSTMENT_INTERVAL` blocks reached:
/// from a one-block chain, `n` pushes retarget `(n + 1) / 5` times, at lengths
/// 5, 10, 15, ...
pub proof fn lemma_retargets_in_run(start: nat, n: nat)
    ensures
        retargets_in_run(start, n) == (start + n) / (ADJUSTMENT_INTERVAL as nat) - start / (
        ADJUSTMENT_INTERVAL as nat),
    decreases n,
{
    if n > 0 {
        lemma_retargets_in_run(start, (n - 1) as nat);
        let m: int = (start + n) as int;
        vstd::arithmetic::div_mod::lemma_fundamental_div_mod(m, 5);
        vstd::arithmetic::div_mod::lemma_fundamental_div_mod(m - 1, 5);
        vstd::arithmetic::div_mod::lemma_mod_bound(m, 5);
        vstd::arithmetic::div_mod::lemma_mod_bound(m - 1, 5);
        assert(m / 5 - (m - 1) / 5 == if m % 5 == 0 {
            1int
        } else {
            0int
        });
    }
}

/// The job a node hands to a miner: build on the newest block, meet the
/// current target, and include the pending transactions.
pub fn mining_job(chain: &Blockchain, consensus: &Consensus, mempool: &Mempool) -> (job: MiningJob)
    requires
        chain.blocks@.len() > 0,
    ensures
        job.parent_block_hash == chain.blocks@.last().hash,
        job.difficulty@ == consensus.state.difficulty.target@,
        tx_views(job.transactions@).to_set() == mempool@,
        tx_views(job.transactions@).no_duplicates(),
        job.target_block_time == TARGET_BLOCK_TIME,
        job.height == chain.blocks@.len(),
{
    let last_block = chain.last_block();
    MiningJob {
        parent_block_hash: last_block.hash,
        difficulty: copy_bytes(consensus.state.difficulty.target.as_slice()),
        transactions: mempool.to_vec(),
        target_block_time: TARGET_BLOCK_TIME,
        height: chain.blocks.len() as u64,
    }
}

} // verus!
