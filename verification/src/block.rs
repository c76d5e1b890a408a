//! Blocks: transactions under a Merkle root, chained by hashes, sealed by a
//! nonce.

use crate::clock::Timestamp;
use crate::hashing::{bincode_encode_transaction, sha256, sha256_of};
use crate::render::{
    byte_list, decimal, lemma_decimal_injective, option_text, push_decimal, push_tuple_bytes,
    tuple_text,
};
use crate::subtypes::Hash256;
use crate::transaction::{transaction_hash, transaction_text, Transaction, TxView};
use vstd::prelude::*;

verus! {

broadcast use vstd::array::group_array_axioms;

/// A block: a header (time, parent hash, own hash, nonce, Merkle root) and a
/// body of transactions.
#[derive(Clone, Debug)]
pub struct Block {
    pub timestamp: Option<Timestamp>,
    /// The hash of the parent block; only the genesis block has none.
    pub previous_hash: Option<Hash256>,
    pub hash: Hash256,
    pub nonce: u64,
    pub merkle_root: Hash256,
    pub transactions: Vec<Transaction>,
}

/// What a block holds, as mathematical values.
pub struct BlockView {
    pub timestamp: Option<Timestamp>,
    pub previous_hash: Option<Seq<u8>>,
    pub hash: Seq<u8>,
    pub nonce: u64,
    pub merkle_root: Seq<u8>,
    pub transactions: Seq<TxView>,
}

/// The views of a sequence of transactions.
pub open spec fn tx_views(txs: Seq<Transaction>) -> Seq<TxView> {
    txs.map_values(|t: Transaction| t@)
}

/// Appending a transaction appends its view.
pub proof fn lemma_tx_views_push(ts: Seq<Transaction>, t: Transaction)
    ensures
        tx_views(ts.push(t)) == tx_views(ts).push(t@),
{
    assert(tx_views(ts.push(t)) =~= tx_views(ts).push(t@));
}

/// The views of a sequence of digests.
pub open spec fn hash_views(hs: Seq<Hash256>) -> Seq<Seq<u8>> {
    hs.map_values(|h: Hash256| h@)
}

/// The view of an optional digest.
pub open spec fn opt_hash_view(h: Option<Hash256>) -> Option<Seq<u8>> {
    match h {
        Some(d) => Some(d@),
        None => None,
    }
}

impl View for Block {
    type V = BlockView;

    open spec fn view(&self) -> BlockView {
        BlockView {
            timestamp: self.timestamp,
            previous_hash: opt_hash_view(self.previous_hash),
            hash: self.hash@,
            nonce: self.nonce,
            merkle_root: self.merkle_root@,
            transactions: tx_views(self.transactions@),
        }
    }
}

/// Thirty-two zero bytes: the Merkle root of an empty block, and the hash of a
/// block that has not been hashed yet.
pub open spec fn zero_hash() -> Seq<u8> {
    Seq::new(32, |i: int| 0u8)
}

/// The `Display` texts of the transactions, one after the other.
pub open spec fn transactions_text(txs: Seq<TxView>) -> Seq<char>
    decreases txs.len(),
{
    if txs.len() == 0 {
        Seq::empty()
    } else {
        transactions_text(txs.drop_last()) + transaction_text(txs.last())
    }
}

/// The text that a block's hash is taken over: the transactions' texts, the
/// nonce in decimal, then the `Debug` rendering of the parent hash if there is
/// one.
pub open spec fn hash_preimage(txs: Seq<TxView>, nonce: u64, previous: Option<Seq<u8>>) -> Seq<
    char,
> {
    transactions_text(txs) + decimal(nonce as nat) + match previous {
        Some(h) => tuple_text("Hash256"@, byte_list(h)),
        None => Seq::empty(),
    }
}

/// The nonce enters a block's hash preimage in full: blocks that differ only
/// in their nonce have different preimages.
pub proof fn lemma_preimage_injective_in_nonce(
    txs: Seq<TxView>,
    nonce1: u64,
    nonce2: u64,
    previous: Option<Seq<u8>>,
)
    requires
        hash_preimage(txs, nonce1, previous) == hash_preimage(txs, nonce2, previous),
    ensures
        nonce1 == nonce2,
{
    let t = transactions_text(txs);
    let d1 = decimal(nonce1 as nat);
    let d2 = decimal(nonce2 as nat);
    let suffix = match previous {
        Some(h) => tuple_text("Hash256"@, byte_list(h)),
        None => Seq::empty(),
    };
    let x = hash_preimage(txs, nonce1, previous);
    let y = hash_preimage(txs, nonce2, previous);
    assert(x == t + d1 + suffix);
    assert(y == t + d2 + suffix);
    assert(d1.len() == d2.len());
    assert(d1 =~= x.subrange(t.len() as int, (t.len() + d1.len()) as int));
    assert(d2 =~= y.subrange(t.len() as int, (t.len() + d2.len()) as int));
    lemma_decimal_injective(nonce1 as nat, nonce2 as nat);
}

/// The hash of a block: SHA-256 over the UTF-8 bytes of its preimage text.
/// It depends on the transactions, the nonce and the parent hash only.
pub open spec fn block_hash(b: BlockView) -> Seq<u8> {
    sha256_of(vstd::utf8::encode_utf8(hash_preimage(b.transactions, b.nonce, b.previous_hash)))
}

/// A block's hash does not depend on its stored hash, its Merkle root or its
/// timestamp.
pub proof fn lemma_block_hash_ignores_header_fields(
    b: BlockView,
    hash: Seq<u8>,
    merkle_root: Seq<u8>,
    timestamp: Option<Timestamp>,
)
    ensures
        block_hash(BlockView { hash: hash, merkle_root: merkle_root, timestamp: timestamp, ..b })
            == block_hash(b),
{
}

/// The hash of an inner Merkle node: SHA-256 over the two children's bytes.
pub open spec fn pair_hash(left: Seq<u8>, right: Seq<u8>) -> Seq<u8> {
    sha256_of(left + right)
}

/// One level up the Merkle tree: neighbours are hashed in pairs, and a last
/// node without a partner is paired with itself.
pub open spec fn next_level(hs: Seq<Seq<u8>>) -> Seq<Seq<u8>> {
    Seq::new(
        ((hs.len() + 1) / 2) as nat,
        |i: int|
            pair_hash(
                hs[2 * i],
                if 2 * i + 1 < hs.len() {
                    hs[2 * i + 1]
                } else {
                    hs[2 * i]
                },
            ),
    )
}

/// The root over a non-empty level of the tree.
pub open spec fn merkle_fold(hs: Seq<Seq<u8>>) -> Seq<u8>
    decreases hs.len(),
{
    if hs.len() <= 1 {
        hs[0]
    } else {
        merkle_fold(next_level(hs))
    }
}

/// The Merkle root of a block's transactions: thirty-two zero bytes when there
/// are none, else the root of the tree whose leaves are the transaction hashes.
pub open spec fn merkle_root_of(txs: Seq<TxView>) -> Seq<u8> {
    if txs.len() == 0 {
        zero_hash()
    } else {
        merkle_fold(txs.map_values(|t: TxView| transaction_hash(t)))
    }
}

/// The Merkle root of a single transaction is that transaction's hash.
pub proof fn lemma_merkle_root_single(t: TxView)
    ensures
        merkle_root_of(seq![t]) == transaction_hash(t),
{
    assert(seq![t].map_values(|x: TxView| transaction_hash(x))[0] == transaction_hash(t));
}

/// The Merkle root of two transactions is the hash of their two hashes.
pub proof fn lemma_merkle_root_pair(t0: TxView, t1: TxView)
    ensures
        merkle_root_of(seq![t0, t1]) == pair_hash(transaction_hash(t0), transaction_hash(t1)),
{
    let leaves = seq![t0, t1].map_values(|x: TxView| transaction_hash(x));
    assert(leaves[0] == transaction_hash(t0));
    assert(leaves[1] == transaction_hash(t1));
    let up = next_level(leaves);
    assert(up.len() == 1);
    assert(merkle_fold(up) == up[0]);
}

/// The `Display` text of a block: its hash and its parent hash.
pub open spec fn block_text(b: BlockView) -> Seq<char> {
    "Block {\n  hash: "@ + tuple_text("Hash256"@, byte_list(b.hash)) + ",\n  previous_hash: "@
        + option_text(
        match b.previous_hash {
            Some(h) => Some(tuple_text("Hash256"@, byte_list(h))),
            None => None,
        },
    ) + "\n}"@
}

proof fn lemma_hash_views_push(hs: Seq<Hash256>, h: Hash256)
    ensures
        hash_views(hs.push(h)) == hash_views(hs).push(h@),
{
    assert(hash_views(hs.push(h)) =~= hash_views(hs).push(h@));
}

/// The 64 bytes of two digests, one after the other.
fn join_hashes(left: &Hash256, right: &Hash256) -> (joined: Vec<u8>)
    ensures
        joined@ == left@ + right@,
{
    let mut joined: Vec<u8> = Vec::new();
    let mut i: usize = 0;
    while i < 32
        invariant
            0 <= i <= 32,
            left@.len() == 32,
            joined@ == left@.take(i as int),
        decreases 32 - i,
    {
        joined.push(left.0[i]);
        assert(left@.take(i + 1) =~= left@.take(i as int).push(left@[i as int]));
        i += 1;
    }
    assert(left@.take(32) =~= left@);
    let mut j: usize = 0;
    while j < 32
        invariant
            0 <= j <= 32,
            left@.len() == 32,
            right@.len() == 32,
            joined@ == left@ + right@.take(j as int),
        decreases 32 - j,
    {
        joined.push(right.0[j]);
        assert(right@.take(j + 1) =~= right@.take(j as int).push(right@[j as int]));
        assert(left@ + right@.take(j + 1) =~= (left@ + right@.take(j as int)).push(right@[j as int]));
        j += 1;
    }
    assert(right@.take(32) =~= right@);
    joined
}

impl Block {
    /// A new block over `transactions` with the given parent: no timestamp,
    /// nonce 0, a zero hash, and the Merkle root of the transactions.
    pub fn new(transactions: Vec<Transaction>, previous_hash: Option<Hash256>) -> (block: Self)
        ensures
            block.timestamp is None,
            block.previous_hash == previous_hash,
            block.hash@ == zero_hash(),
            block.nonce == 0,
            block.transactions == transactions,
            block.merkle_root@ == merkle_root_of(tx_views(transactions@)),
    {
        let merkle_root = Block::merkle_root_from_txs(transactions.as_slice());
        let hash = Hash256([0u8; 32]);
        assert(hash@ =~= zero_hash());
        Self { timestamp: None, previous_hash, hash, nonce: 0, transactions, merkle_root }
    }

    /// The hash of the block's transactions, nonce and parent hash (see
    /// `block_hash`); the stored `hash` field is not read.
    pub fn calculate_hash(&self) -> (hash: Hash256)
        ensures
            hash@ == block_hash(self@),
    {
        let mut raw = String::new();
        let n = self.transactions.len();
        let ghost txs = tx_views(self.transactions@);
        let mut i: usize = 0;
        while i < n
            invariant
                0 <= i <= n,
                n == self.transactions@.len(),
                txs == tx_views(self.transactions@),
                raw@ == transactions_text(txs.take(i as int)),
            decreases n - i,
        {
            let text = self.transactions[i].display_string();
            raw.append(text.as_str());
            assert(txs.take(i + 1).drop_last() =~= txs.take(i as int));
            i += 1;
        }
        assert(txs.take(n as int) =~= txs);
        push_decimal(&mut raw, self.nonce);
        match &self.previous_hash {
            Some(previous) => {
                push_tuple_bytes(&mut raw, "Hash256", previous.0.as_slice());
            },
            None => {},
        }
        assert(raw@ =~= hash_preimage(txs, self.nonce, opt_hash_view(self.previous_hash)));
        Hash256(sha256(raw.as_str().as_bytes()))
    }

    /// The hash of one transaction: SHA-256 over its bincode encoding.
    pub fn hash_transaction(tx: &Transaction) -> (hash: Hash256)
        ensures
            hash@ == transaction_hash(tx@),
            hash@ == sha256_of(crate::hashing::bincode_standard_transaction(tx@)),
    {
        let serialized = bincode_encode_transaction(tx);
        Hash256(sha256(serialized.as_slice()))
    }

    /// The Merkle root of `txs` (see `merkle_root_of`).
    pub fn merkle_root_from_txs(txs: &[Transaction]) -> (root: Hash256)
        ensures
            root@ == merkle_root_of(tx_views(txs@)),
    {
        if txs.len() == 0 {
            let empty = Hash256([0u8; 32]);
            assert(empty@ =~= zero_hash());
            return empty;
        }
        let ghost leaves = tx_views(txs@).map_values(|t: TxView| transaction_hash(t));
        let mut hashes: Vec<Hash256> = Vec::new();
        let n = txs.len();
        let mut i: usize = 0;
        while i < n
            invariant
                0 <= i <= n,
                n == txs@.len(),
                leaves == tx_views(txs@).map_values(|t: TxView| transaction_hash(t)),
                hash_views(hashes@) == leaves.take(i as int),
            decreases n - i,
        {
            let leaf = Block::hash_transaction(&txs[i]);
            proof {
                lemma_hash_views_push(hashes@, leaf);
                assert(leaves[i as int] == leaf@);
            }
            hashes.push(leaf);
            assert(hash_views(hashes@) =~= leaves.take(i + 1));
            i += 1;
        }
        assert(leaves.take(n as int) =~= leaves);
        while hashes.len() > 1
            invariant
                hashes@.len() >= 1,
                merkle_fold(hash_views(hashes@)) == merkle_fold(leaves),
            decreases hashes@.len(),
        {
            let ghost level = hash_views(hashes@);
            let m = hashes.len();
            let half = m / 2 + m % 2;
            assert(half == (level.len() + 1) / 2);
            let mut next: Vec<Hash256> = Vec::new();
            let mut k: usize = 0;
            while k < half
                invariant
                    0 <= k <= half,
                    m == hashes@.len(),
                    m >= 2,
                    half == (m + 1) / 2,
                    level == hash_views(hashes@),
                    hash_views(next@) == next_level(level).take(k as int),
                decreases half - k,
            {
                let left = hashes[2 * k];
                let right = if 2 * k + 1 < m {
                    hashes[2 * k + 1]
                } else {
                    hashes[2 * k]
                };
                let joined = join_hashes(&left, &right);
                let parent = Hash256(sha256(joined.as_slice()));
                proof {
                    lemma_hash_views_push(next@, parent);
                    assert(level[2 * k as int] == left@);
                    if 2 * k + 1 < m {
                        assert(level[2 * k + 1] == right@);
                    }
                    assert(next_level(level)[k as int] == parent@);
                }
                next.push(parent);
                assert(hash_views(next@) =~= next_level(level).take(k + 1));
                k += 1;
            }
            assert(next_level(level).take(half as int) =~= next_level(level));
            assert(merkle_fold(level) == merkle_fold(next_level(level)));
            hashes = next;
        }
        assert(hash_views(hashes@)[0] == hashes@[0]@);
        hashes[0]
    }

    /// The `Display` text of the block (see `block_text`).
    pub fn display_string(&self) -> (text: String)
        ensures
            text@ == block_text(self@),
    {
        let mut out = String::new();
        out.append("Block {\n  hash: ");
        push_tuple_bytes(&mut out, "Hash256", self.hash.0.as_slice());
        out.append(",\n  previous_hash: ");
        match &self.previous_hash {
            Some(h) => {
                out.append("Some(");
                push_tuple_bytes(&mut out, "Hash256", h.0.as_slice());
                out.append(")");
            },
            None => {
                out.append("None");
            },
        }
        out.append("\n}");
        assert(out@ =~= block_text(self@));
        out
    }
}

} // verus!
