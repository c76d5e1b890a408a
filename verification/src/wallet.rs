//! Wallets: a seed and the address derived from it.

use crate::hashing::sha256_of;
use crate::subtypes::{Address, Seed};
use vstd::prelude::*;

verus! {

#[derive(Clone, Copy, Debug, PartialEq, Eq, PartialOrd, Ord)]
pub struct Wallet {
    pub seed: Seed,
    pub address: Address,
}

impl Wallet {
    /// The wallet of `seed`, with the address derived from it.
    pub fn new(seed: Seed) -> (wallet: Self)
        ensures
            wallet.seed == seed,
            wallet.address.0@ == sha256_of(seed.0@),
    {
        let address = Address::from_seed(&seed);
        Wallet { seed, address }
    }
}

} // verus!
