//! The proof-of-work target.

use crate::bignum::{be_le, be_value, lemma_be_le_is_lexicographic, lex_le};
use crate::node::initial_target_bytes;
use crate::subtypes::Hash256;
use vstd::prelude::*;

verus! {

/// The difficulty: a block hash, read as a big-endian number, must not exceed
/// `target` (itself big-endian bytes of any length).
#[derive(Clone, Debug)]
pub struct Difficulty {
    pub target: Vec<u8>,
}

/// Whether a hash meets a target: as big-endian numbers, hash <= target.
pub open spec fn meets_target(hash: Seq<u8>, target: Seq<u8>) -> bool {
    be_value(hash) <= be_value(target)
}

/// A hash that meets a target meets every larger target too.
pub proof fn lemma_meets_larger_target(hash: Seq<u8>, target: Seq<u8>, larger: Seq<u8>)
    requires
        meets_target(hash, target),
        be_value(target) <= be_value(larger),
    ensures
        meets_target(hash, larger),
{
}

/// Every byte of a hash counts: against a target of the same length, a hash
/// meets the target exactly when, comparing from the first byte, the first
/// byte where they differ is smaller in the hash (or none differs).
pub proof fn lemma_meets_target_is_lexicographic(hash: Seq<u8>, target: Seq<u8>)
    requires
        hash.len() == target.len(),
    ensures
        meets_target(hash, target) == lex_le(hash, target),
{
    lemma_be_le_is_lexicographic(hash, target);
}

/// A 32-byte hash meets the node's first target (`initial_target_bytes`,
/// 0x00000fff..ff) exactly when its first two bytes are zero and its third
/// is at most 0x0f: so a hash of all 0xff bytes does not.
pub proof fn lemma_initial_target_needs_leading_zeros(hash: Seq<u8>)
    requires
        hash.len() == 32,
    ensures
        meets_target(hash, initial_target_bytes()) == (hash[0] == 0 && hash[1] == 0 && hash[2]
            <= 0x0f),
{
    let target = seq![0u8, 0u8, 0x0fu8] + Seq::new(29, |i: int| 0xffu8);
    lemma_meets_target_is_lexicographic(hash, target);
    let t1 = target.drop_first();
    let t2 = t1.drop_first();
    let t3 = t2.drop_first();
    let h1 = hash.drop_first();
    let h2 = h1.drop_first();
    let h3 = h2.drop_first();
    assert(t3 =~= Seq::new(29, |i: int| 0xffu8));
    lemma_lex_le_all_ff(h3, t3);
    assert(target[0] == 0 && t1[0] == 0 && t2[0] == 0x0f);
    assert(hash[1] == h1[0] && hash[2] == h2[0]);
    assert(lex_le(h2, t2) == (h2[0] <= 0x0f)) by {
        assert(lex_le(h2, t2) == if h2[0] < t2[0] {
            true
        } else if h2[0] > t2[0] {
            false
        } else {
            lex_le(h3, t3)
        });
    }
    assert(lex_le(h1, t1) == (h1[0] == 0 && lex_le(h2, t2)));
    assert(lex_le(hash, target) == (hash[0] == 0 && lex_le(h1, t1)));
}

/// Anything is at most a string of 0xff bytes of the same length.
proof fn lemma_lex_le_all_ff(a: Seq<u8>, b: Seq<u8>)
    requires
        a.len() == b.len(),
        forall|i: int| 0 <= i < b.len() ==> b[i] == 0xff,
    ensures
        lex_le(a, b),
    decreases a.len(),
{
    if a.len() > 0 {
        lemma_lex_le_all_ff(a.drop_first(), b.drop_first());
    }
}

impl Difficulty {
    /// Whether `hash` meets the target.
    pub fn verify(&self, hash: Hash256) -> (ok: bool)
        ensures
            ok == meets_target(hash@, self.target@),
    {
        be_le(hash.0.as_slice(), self.target.as_slice())
    }
}

} // verus!
