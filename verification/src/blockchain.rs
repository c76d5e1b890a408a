//! The chain of blocks, from the genesis block on.

use crate::block::{
    block_hash, block_text, lemma_block_hash_ignores_header_fields, Block, BlockView,
};
use crate::consensus::valid_block;
use crate::render::{decimal, push_decimal};
use vstd::prelude::*;

verus! {

/// The chain; `blocks[0]` is the genesis block.
pub struct Blockchain {
    pub blocks: Vec<Block>,
}

/// The views of a sequence of blocks.
pub open spec fn block_views(bs: Seq<Block>) -> Seq<BlockView> {
    bs.map_values(|b: Block| b@)
}

/// Every block from index 1 up to (not including) `upto` names the computed
/// hash of the block before it as its parent.
pub open spec fn links_hold(blocks: Seq<BlockView>, upto: int) -> bool {
    forall|i: int|
        #![trigger blocks[i].previous_hash]
        1 <= i < upto ==> blocks[i].previous_hash == Some(block_hash(blocks[i - 1]))
}

/// A chain is intact when its first block has no parent and every later block
/// names the computed hash of the block before it.
pub open spec fn chain_intact(blocks: Seq<BlockView>) -> bool {
    &&& blocks.len() > 0
    &&& blocks[0].previous_hash is None
    &&& links_hold(blocks, blocks.len() as int)
}

/// The `Display` lines of the blocks: `Block i:`, then the block's text.
pub open spec fn chain_entries(blocks: Seq<BlockView>) -> Seq<char>
    decreases blocks.len(),
{
    if blocks.len() == 0 {
        Seq::empty()
    } else {
        chain_entries(blocks.drop_last()) + "Block "@ + decimal((blocks.len() - 1) as nat) + ":\n"@
            + block_text(blocks.last()) + "\n"@
    }
}

/// The `Display` text of a chain: a header with the block count, then each
/// block.
pub open spec fn chain_text(blocks: Seq<BlockView>) -> Seq<char> {
    "Blockchain with "@ + decimal(blocks.len()) + " blocks:\n"@ + chain_entries(blocks)
}

/// Every block's stored hash is the hash of its contents.
pub open spec fn hashes_current(blocks: Seq<BlockView>) -> bool {
    forall|i: int| #![trigger blocks[i].hash] 0 <= i < blocks.len() ==> blocks[i].hash == block_hash(blocks[i])
}

/// A chain is intact exactly when its first block has no parent and every
/// later block, the one right after the genesis block included, names the
/// hash recomputed from the contents of the block before it.
pub proof fn lemma_intact_means_every_link_recomputed(blocks: Seq<BlockView>)
    ensures
        chain_intact(blocks) <==> (blocks.len() > 0 && blocks[0].previous_hash is None && forall|
            i: int,
        |
            #![trigger blocks[i].previous_hash]
            1 <= i < blocks.len() ==> blocks[i].previous_hash == Some(block_hash(blocks[i - 1]))),
{
}

/// The integrity verdict never depends on the hashes the blocks store: two
/// chains whose blocks differ only in their stored `hash` fields are intact or
/// broken together.
pub proof fn lemma_integrity_ignores_stored_hashes(blocks: Seq<BlockView>, other: Seq<BlockView>)
    requires
        blocks.len() == other.len(),
        forall|i: int|
            0 <= i < blocks.len() ==> #[trigger] other[i] == (BlockView {
                hash: other[i].hash,
                ..blocks[i]
            }),
    ensures
        chain_intact(blocks) == chain_intact(other),
{
    assert forall|i: int| 0 <= i < blocks.len() implies #[trigger] block_hash(other[i]) == block_hash(
        blocks[i],
    ) && other[i].previous_hash == blocks[i].previous_hash by {
        assert(other[i] == (BlockView { hash: other[i].hash, ..blocks[i] }));
        lemma_block_hash_ignores_header_fields(
            blocks[i],
            other[i].hash,
            blocks[i].merkle_root,
            blocks[i].timestamp,
        );
        assert((BlockView {
            hash: other[i].hash,
            merkle_root: blocks[i].merkle_root,
            timestamp: blocks[i].timestamp,
            ..blocks[i]
        }) == other[i]);
    }
    if chain_intact(blocks) {
        assert forall|i: int|
            #![trigger other[i].previous_hash]
            1 <= i < other.len() implies other[i].previous_hash == Some(block_hash(other[i - 1])) by {
            assert(blocks[i].previous_hash == Some(block_hash(blocks[i - 1])));
            assert(block_hash(other[i - 1]) == block_hash(blocks[i - 1]));
            assert(other[i].previous_hash == blocks[i].previous_hash);
        }
    }
    if chain_intact(other) {
        assert forall|i: int|
            #![trigger blocks[i].previous_hash]
            1 <= i < blocks.len() implies blocks[i].previous_hash == Some(block_hash(blocks[i - 1])) by {
            assert(other[i].previous_hash == Some(block_hash(other[i - 1])));
            assert(block_hash(other[i - 1]) == block_hash(blocks[i - 1]));
            assert(other[i].previous_hash == blocks[i].previous_hash);
        }
    }
    if blocks.len() > 0 {
        assert(other[0].previous_hash == blocks[0].previous_hash);
    }
}

/// A chain made of one block without a parent is intact, and its stored
/// hashes are current when that block carries its own hash.
pub proof fn lemma_single_block_chain_intact(genesis: BlockView)
    requires
        genesis.previous_hash is None,
    ensures
        chain_intact(seq![genesis]),
        genesis.hash == block_hash(genesis) ==> hashes_current(seq![genesis]),
{
}

/// Appending a block that is a valid successor of the newest block (under any
/// target) to an intact chain whose stored hashes are current keeps the chain
/// intact and its stored hashes current.
pub proof fn lemma_valid_successor_keeps_chain_intact(
    blocks: Seq<BlockView>,
    target: Seq<u8>,
    block: BlockView,
)
    requires
        chain_intact(blocks),
        hashes_current(blocks),
        valid_block(target, blocks.last(), block),
    ensures
        chain_intact(blocks.push(block)),
        hashes_current(blocks.push(block)),
{
    let longer = blocks.push(block);
    assert forall|i: int|
        #![trigger longer[i].previous_hash]
        1 <= i < longer.len() implies longer[i].previous_hash == Some(block_hash(longer[i - 1])) by {
        if i < blocks.len() {
            assert(blocks[i].previous_hash == Some(block_hash(blocks[i - 1])));
        } else {
            assert(blocks[blocks.len() - 1].hash == block_hash(blocks[blocks.len() - 1]));
        }
    }
    assert forall|i: int| #![trigger longer[i].hash] 0 <= i < longer.len() implies longer[i].hash
        == block_hash(longer[i]) by {
        if i < blocks.len() {
            assert(blocks[i].hash == block_hash(blocks[i]));
        }
    }
}

impl Blockchain {
    /// A chain made of the genesis block alone.
    pub fn new(genesis: Block) -> (chain: Self)
        ensures
            chain.blocks@ == seq![genesis],
    {
        let mut blocks: Vec<Block> = Vec::new();
        blocks.push(genesis);
        Self { blocks }
    }

    /// Whether the chain is intact (see `chain_intact`). Only the genesis
    /// block may lack a parent hash: a later block without one makes the
    /// chain not intact.
    pub fn verify_integrity(&self) -> (intact: bool)
        requires
            self.blocks@.len() > 0,
        ensures
            intact == chain_intact(block_views(self.blocks@)),
    {
        let ghost views = block_views(self.blocks@);
        let genesis = &self.blocks[0];
        if genesis.previous_hash.is_some() {
            return false;
        }
        let mut current_hash = genesis.calculate_hash();
        let n = self.blocks.len();
        let mut i: usize = 1;
        while i < n
            invariant
                1 <= i <= n,
                n == self.blocks@.len(),
                views == block_views(self.blocks@),
                views[0].previous_hash is None,
                links_hold(views, i as int),
                current_hash@ == block_hash(views[i - 1]),
            decreases n - i,
        {
            let block = &self.blocks[i];
            assert(views[i as int] == block@);
            let previous = match block.previous_hash {
                Some(previous) => previous,
                None => {
                    return false;
                },
            };
            if !previous.same_as(&current_hash) {
                assert(views[i as int].previous_hash != Some(block_hash(views[i - 1])));
                return false;
            }
            current_hash = block.calculate_hash();
            assert(links_hold(views, i + 1));
            i += 1;
        }
        true
    }

    /// The newest block.
    pub fn last_block(&self) -> (last: &Block)
        requires
            self.blocks@.len() > 0,
        ensures
            *last == self.blocks@.last(),
    {
        let n = self.blocks.len();
        &self.blocks[n - 1]
    }

    /// The `Display` text of the chain (see `chain_text`).
    pub fn display_string(&self) -> (text: String)
        ensures
            text@ == chain_text(block_views(self.blocks@)),
    {
        let ghost views = block_views(self.blocks@);
        let n = self.blocks.len();
        let mut out = String::new();
        out.append("Blockchain with ");
        push_decimal(&mut out, n as u64);
        out.append(" blocks:\n");
        let ghost header = out@;
        let mut i: usize = 0;
        while i < n
            invariant
                0 <= i <= n,
                n == self.blocks@.len(),
                views == block_views(self.blocks@),
                out@ == header + chain_entries(views.take(i as int)),
            decreases n - i,
        {
            out.append("Block ");
            push_decimal(&mut out, i as u64);
            out.append(":\n");
            let text = self.blocks[i].display_string();
            out.append(text.as_str());
            out.append("\n");
            proof {
                let next = views.take(i + 1);
                assert(next.drop_last() =~= views.take(i as int));
                assert(next.last() == self.blocks@[i as int]@);
                assert(out@ =~= header + chain_entries(next));
            }
            i += 1;
        }
        assert(views.take(n as int) =~= views);
        assert(out@ =~= chain_text(views));
        out
    }
}

} // verus!
