//! Fixed-size byte identifiers: hashes, seeds, addresses and signatures.

use crate::hashing::{sha256, sha256_of};
use vstd::prelude::*;

verus! {

broadcast use vstd::array::group_array_axioms;

/// Compares two 32-byte arrays byte by byte.
pub fn bytes32_eq(a: &[u8; 32], b: &[u8; 32]) -> (equal: bool)
    ensures
        equal == (a@ == b@),
{
    let mut i: usize = 0;
    while i < 32
        invariant
            0 <= i <= 32,
            a@.len() == 32,
            b@.len() == 32,
            forall|j: int| 0 <= j < i ==> a@[j] == b@[j],
        decreases 32 - i,
    {
        if a[i] != b[i] {
            return false;
        }
        i += 1;
    }
    assert(a@ =~= b@);
    true
}

/// A 32-byte SHA-256 digest.
#[derive(Clone, Copy, Debug, PartialEq, Eq, Hash)]
pub struct Hash256(pub [u8; 32]);

impl View for Hash256 {
    type V = Seq<u8>;

    open spec fn view(&self) -> Seq<u8> {
        self.0@
    }
}

impl Hash256 {
    /// Whether two digests hold the same bytes.
    pub fn same_as(&self, other: &Hash256) -> (equal: bool)
        ensures
            equal == (self@ == other@),
    {
        bytes32_eq(&self.0, &other.0)
    }
}

/// The secret seed a wallet is derived from.
#[derive(Clone, Copy, Debug, PartialEq, Eq, PartialOrd, Ord, Hash)]
pub struct Seed(pub [u8; 32]);

/// An account address: the SHA-256 digest of a seed.
#[derive(Clone, Copy, Debug, PartialEq, Eq, PartialOrd, Ord, Hash)]
pub struct Address(pub [u8; 32]);

impl Address {
    /// The address that belongs to `seed`: the SHA-256 digest of its bytes.
    pub fn from_seed(seed: &Seed) -> (address: Self)
        ensures
            address.0@ == sha256_of(seed.0@),
    {
        let bytes: &[u8] = seed.0.as_slice();
        Address(sha256(bytes))
    }
}

/// A transaction signature.
#[derive(Clone, Copy, Debug, PartialEq, Eq, PartialOrd, Ord, Hash)]
pub struct Signature(pub [u8; 32]);

} // verus!
