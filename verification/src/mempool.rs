//! The pool of transactions waiting for a block.

use crate::block::{lemma_tx_views_push, tx_views};
use crate::transaction::{Transaction, TxView};
use vstd::prelude::*;

verus! {

/// A set of pending transactions: no two of them have the same contents.
pub struct Mempool {
    pool: Vec<Transaction>,
}

impl Mempool {
    #[verifier::type_invariant]
    spec fn distinct(self) -> bool {
        tx_views(self.pool@).no_duplicates()
    }
}

impl View for Mempool {
    type V = Set<TxView>;

    closed spec fn view(&self) -> Set<TxView> {
        tx_views(self.pool@).to_set()
    }
}

/// Inserting a transaction a second time leaves the pool as the first
/// insertion left it.
pub proof fn lemma_insert_twice_same_as_once(pool: Set<TxView>, tx: TxView)
    ensures
        pool.insert(tx).insert(tx) == pool.insert(tx),
{
    assert(pool.insert(tx).insert(tx) =~= pool.insert(tx));
}

impl Default for Mempool {
    /// An empty pool.
    fn default() -> (pool: Self)
        ensures
            pool@ == Set::<TxView>::empty(),
    {
        Mempool::new()
    }
}

impl Mempool {
    /// An empty pool.
    pub fn new() -> (pool: Self)
        ensures
            pool@ == Set::<TxView>::empty(),
    {
        let pool = Self { pool: Vec::new() };
        assert(pool@ =~= Set::<TxView>::empty());
        pool
    }

    /// Adds `tx`; a transaction with the same contents is only kept once.
    pub fn insert(&mut self, tx: Transaction)
        ensures
            final(self)@ == old(self)@.insert(tx@),
    {
        proof {
            use_type_invariant(&*self);
        }
        let ghost before = tx_views(self.pool@);
        let n = self.pool.len();
        let mut i: usize = 0;
        while i < n
            invariant
                0 <= i <= n,
                n == self.pool@.len(),
                before == tx_views(self.pool@),
                forall|j: int| 0 <= j < i ==> before[j] != tx@,
            decreases n - i,
        {
            if self.pool[i].same_as(&tx) {
                assert(before[i as int] == tx@);
                assert(before.to_set().insert(tx@) =~= before.to_set());
                return;
            }
            i += 1;
        }
        let mut pool: Vec<Transaction> = Vec::new();
        std::mem::swap(&mut pool, &mut self.pool);
        let ghost tx_view = tx@;
        pool.push(tx);
        proof {
            let after = tx_views(pool@);
            assert(after =~= before.push(tx_view));
            assert forall|x: TxView| after.contains(x) <==> before.contains(x) || x == tx_view by {
                if after.contains(x) {
                    let k = choose|k: int| 0 <= k < after.len() && after[k] == x;
                    if k < before.len() {
                        assert(before[k] == x);
                    }
                }
                if before.contains(x) {
                    let k = choose|k: int| 0 <= k < before.len() && before[k] == x;
                    assert(after[k] == x);
                }
                if x == tx_view {
                    assert(after[after.len() - 1] == x);
                }
            }
            assert(after.to_set() =~= before.to_set().insert(tx_view));
            assert(after.no_duplicates());
        }
        self.pool = pool;
    }

    /// Removes every transaction.
    pub fn clear(&mut self)
        ensures
            final(self)@ == Set::<TxView>::empty(),
    {
        self.pool = Vec::new();
        assert(self@ =~= Set::<TxView>::empty());
    }

    /// The pending transactions, each once, in no promised order.
    pub fn to_vec(&self) -> (txs: Vec<Transaction>)
        ensures
            tx_views(txs@).to_set() == self@,
            tx_views(txs@).no_duplicates(),
    {
        proof {
            use_type_invariant(self);
        }
        let mut txs: Vec<Transaction> = Vec::new();
        let n = self.pool.len();
        let mut i: usize = 0;
        while i < n
            invariant
                0 <= i <= n,
                n == self.pool@.len(),
                tx_views(txs@) == tx_views(self.pool@).take(i as int),
            decreases n - i,
        {
            let copy = self.pool[i].duplicate();
            proof {
                lemma_tx_views_push(txs@, copy);
            }
            txs.push(copy);
            assert(tx_views(txs@) =~= tx_views(self.pool@).take(i + 1));
            i += 1;
        }
        assert(tx_views(self.pool@).take(n as int) =~= tx_views(self.pool@));
        txs
    }

    /// The number of pending transactions.
    pub fn len(&self) -> (count: usize)
        ensures
            count == self@.len(),
    {
        proof {
            use_type_invariant(self);
            tx_views(self.pool@).unique_seq_to_set();
        }
        self.pool.len()
    }
}

} // verus!
