//! Consensus rules: block validity and difficulty retargeting.

use crate::bignum::{be_div, be_le, be_mul, be_value};
use crate::block::{block_hash, Block, BlockView};
use crate::clock::{
    elapsed_whole_seconds, lemma_elapsed_monotone, total_nanos, whole_seconds_between, Timestamp,
};
use crate::difficulty::{meets_target, Difficulty};
use vstd::prelude::*;

verus! {

/// The time a block should take, in seconds.
pub const TARGET_BLOCK_TIME: u64 = 4u64;

/// The number of blocks between two retargetings.
pub const ADJUSTMENT_INTERVAL: u64 = 5u64;

/// The consensus state: the current difficulty and the start of the current
/// retargeting window.
#[derive(Clone, Debug)]
pub struct State {
    pub difficulty: Difficulty,
    pub start_window_time: Timestamp,
}

/// `v` limited to `[lo, hi]` (`lo <= hi` where it is used).
pub open spec fn clamp(v: nat, lo: nat, hi: nat) -> nat {
    if v > hi {
        hi
    } else if v < lo {
        lo
    } else {
        v
    }
}

/// The new target after a window that lasted `elapsed` whole seconds: the old
/// target times (elapsed, at least 1) / (TARGET_BLOCK_TIME *
/// ADJUSTMENT_INTERVAL) in integer division, kept between a quarter and four
/// times the old target.
pub open spec fn retarget(target: nat, elapsed: int) -> nat {
    let actual: int = if elapsed >= 1 {
        elapsed
    } else {
        1
    };
    let factor: nat = (actual / ((TARGET_BLOCK_TIME * ADJUSTMENT_INTERVAL) as int)) as nat;
    clamp(target * factor, target / 4, target * 4)
}

/// Retargeting never moves the target below a quarter or above four times
/// its old value.
pub proof fn lemma_retarget_within_factor_four(target: nat, elapsed: int)
    ensures
        target / 4 <= retarget(target, elapsed) <= target * 4,
{
    assert(target / 4 <= target * 4) by (nonlinear_arith);
}

/// The new target in closed form: a window shorter than 20 seconds (or
/// negative) gives a quarter of the old target, 20 to 39 seconds keeps it,
/// 40 to 59 doubles it, 60 to 79 triples it, and 80 or more quadruples it.
pub proof fn lemma_retarget_closed_form(target: nat, elapsed: int)
    ensures
        retarget(target, elapsed) == if elapsed < 20 {
            target / 4
        } else if elapsed < 40 {
            target
        } else if elapsed < 60 {
            2 * target
        } else if elapsed < 80 {
            3 * target
        } else {
            4 * target
        },
{
    let actual: int = if elapsed >= 1 {
        elapsed
    } else {
        1
    };
    let factor: nat = (actual / 20) as nat;
    assert(target / 4 <= target) by (nonlinear_arith);
    if elapsed < 20 {
        assert(factor == 0);
        assert(target * factor == 0) by (nonlinear_arith)
            requires
                factor == 0,
        ;
    } else if elapsed < 40 {
        assert(factor == 1);
        assert(target * factor == target) by (nonlinear_arith)
            requires
                factor == 1,
        ;
    } else if elapsed < 60 {
        assert(factor == 2);
        assert(target * factor == 2 * target) by (nonlinear_arith)
            requires
                factor == 2,
        ;
    } else if elapsed < 80 {
        assert(factor == 3);
        assert(target * factor == 3 * target) by (nonlinear_arith)
            requires
                factor == 3,
        ;
    } else {
        assert(factor >= 4);
        assert(target * factor >= target * 4) by (nonlinear_arith)
            requires
                factor >= 4,
        ;
    }
}

/// A longer window never gives a smaller target: retargeting is monotone in
/// the elapsed time.
pub proof fn lemma_retarget_monotone(target: nat, elapsed1: int, elapsed2: int)
    requires
        elapsed1 <= elapsed2,
    ensures
        retarget(target, elapsed1) <= retarget(target, elapsed2),
{
    let a1: int = if elapsed1 >= 1 {
        elapsed1
    } else {
        1
    };
    let a2: int = if elapsed2 >= 1 {
        elapsed2
    } else {
        1
    };
    vstd::arithmetic::div_mod::lemma_div_is_ordered(a1, a2, 20);
    vstd::arithmetic::div_mod::lemma_div_pos_is_pos(a1, 20);
    let f1: nat = (a1 / 20) as nat;
    let f2: nat = (a2 / 20) as nat;
    assert(target * f1 <= target * f2) by (nonlinear_arith)
        requires
            f1 <= f2,
    ;
    assert(target / 4 <= target * 4) by (nonlinear_arith);
}

/// Of two windows that start together, the one that stops later never ends
/// with a smaller target.
pub proof fn lemma_later_stop_never_lowers_target(
    target: nat,
    start: Timestamp,
    stop1: Timestamp,
    stop2: Timestamp,
)
    requires
        total_nanos(stop1) <= total_nanos(stop2),
    ensures
        retarget(target, elapsed_whole_seconds(start, stop1)) <= retarget(
            target,
            elapsed_whole_seconds(start, stop2),
        ),
{
    lemma_elapsed_monotone(start, stop1, stop2);
    lemma_retarget_monotone(
        target,
        elapsed_whole_seconds(start, stop1),
        elapsed_whole_seconds(start, stop2),
    );
}

impl State {
    /// Retargets at the end of a window that ends at `stop_window_time`, and
    /// starts the next window there.
    pub fn adjust_difficulty(&mut self, stop_window_time: Timestamp)
        requires
            elapsed_whole_seconds(old(self).start_window_time, stop_window_time) <= i64::MAX,
        ensures
            be_value(final(self).difficulty.target@) == retarget(
                be_value(old(self).difficulty.target@),
                elapsed_whole_seconds(old(self).start_window_time, stop_window_time),
            ),
            final(self).start_window_time == stop_window_time,
    {
        let elapsed = whole_seconds_between(self.start_window_time, stop_window_time);
        let actual_time: u64 = if elapsed >= 1 {
            elapsed as u64
        } else {
            1
        };
        let factor = actual_time / (TARGET_BLOCK_TIME * ADJUSTMENT_INTERVAL);
        let mut new_target = be_mul(self.difficulty.target.as_slice(), factor);
        let max_up = be_mul(self.difficulty.target.as_slice(), 4);
        let max_down = be_div(self.difficulty.target.as_slice(), 4);
        if !be_le(new_target.as_slice(), max_up.as_slice()) {
            new_target = max_up;
        } else if !be_le(max_down.as_slice(), new_target.as_slice()) {
            new_target = max_down;
        }
        self.difficulty.target = new_target;
        self.start_window_time = stop_window_time;
    }
}

/// Whether `block` may follow `last` under `target`: its hash meets the
/// target, is the hash of its contents, and its parent hash is `last`'s hash.
pub open spec fn valid_block(target: Seq<u8>, last: BlockView, block: BlockView) -> bool {
    &&& meets_target(block.hash, target)
    &&& block_hash(block) == block.hash
    &&& block.previous_hash == Some(last.hash)
}

/// The consensus engine.
#[derive(Clone, Debug)]
pub struct Consensus {
    pub state: State,
}

impl Consensus {
    pub fn new(state: State) -> (consensus: Self)
        ensures
            consensus.state == state,
    {
        Self { state }
    }

    /// Whether `block` is a valid successor of `last_block` (see
    /// `valid_block`).
    pub fn verify_valid_block(&self, last_block: &Block, block: &Block) -> (valid: bool)
        ensures
            valid == valid_block(self.state.difficulty.target@, last_block@, block@),
    {
        if !self.state.difficulty.verify(block.hash) {
            return false;
        }
        let computed = block.calculate_hash();
        if !computed.same_as(&block.hash) {
            return false;
        }
        match &block.previous_hash {
            Some(previous) => previous.same_as(&last_block.hash),
            None => false,
        }
    }
}

} // verus!
