use num_bigint::BigUint;
use pow::block::Block;
use pow::blockchain::Blockchain;
use pow::clock::Timestamp;
use pow::consensus::{Consensus, TARGET_BLOCK_TIME};
use pow::mempool::Mempool;
use pow::mining::{mine_block, search_nonce};
use pow::mining_job::MiningJob;
use pow::node::{genesis_block, initial_state, initial_target, mining_job, push_block};
use pow::subtypes::{Address, Hash256, Signature};
use pow::transaction::Transaction;

fn tx(id: &str) -> Transaction {
    Transaction::new(id.to_string(), Address([1u8; 32]), None, 0, 100, None, Some(b"gm".to_vec()), Signature([2u8; 32]))
}

fn ts(secs: i64) -> Timestamp {
    Timestamp { secs, nanos: 0 }
}

#[test]
fn mempool_insert_is_idempotent() {
    let mut pool = Mempool::new();
    assert_eq!(pool.len(), 0);
    pool.insert(tx("a"));
    pool.insert(tx("b"));
    pool.insert(tx("a"));
    assert_eq!(pool.len(), 2);
    let txs = pool.to_vec();
    assert_eq!(txs.len(), 2);
    assert!(txs.contains(&tx("a")) && txs.contains(&tx("b")));
}

#[test]
fn mempool_clear_empties() {
    let mut pool = Mempool::new();
    pool.insert(tx("a"));
    pool.clear();
    assert_eq!(pool.len(), 0);
    assert!(pool.to_vec().is_empty());
}

#[test]
fn initial_target_value() {
    let target = initial_target();
    assert_eq!(target.len(), 32);
    assert_eq!(BigUint::from_bytes_be(&target), (BigUint::from(1u8) << 236) - 1u8);
    let state = initial_state(ts(77));
    assert_eq!(state.difficulty.target, target);
    assert_eq!(state.start_window_time, ts(77));
}

#[test]
fn genesis_block_hashes_itself() {
    let genesis = genesis_block();
    assert!(genesis.transactions.is_empty());
    assert_eq!(genesis.previous_hash, None);
    assert_eq!(genesis.nonce, 0);
    assert_eq!(genesis.merkle_root, Hash256([0u8; 32]));
    assert_eq!(genesis.hash, genesis.calculate_hash());
    assert!(Blockchain::new(genesis).verify_integrity());
}

#[test]
fn push_block_retargets_every_fifth_block() {
    let mut chain = Blockchain::new(genesis_block());
    let mut consensus = Consensus::new(initial_state(ts(0)));
    let start_target = consensus.state.difficulty.target.clone();
    for i in 2..=4u64 {
        let adjusted = push_block(&mut chain, &mut consensus, Block::new(vec![], None), ts(i as i64));
        assert!(!adjusted);
        assert_eq!(consensus.state.difficulty.target, start_target);
        assert_eq!(consensus.state.start_window_time, ts(0));
    }
    let adjusted = push_block(&mut chain, &mut consensus, Block::new(vec![], None), ts(40));
    assert!(adjusted);
    assert_eq!(chain.blocks.len(), 5);
    assert_eq!(BigUint::from_bytes_be(&consensus.state.difficulty.target), BigUint::from_bytes_be(&start_target) * 2u8);
    assert_eq!(consensus.state.start_window_time, ts(40));
    assert!(!push_block(&mut chain, &mut consensus, Block::new(vec![], None), ts(41)));
}

#[test]
fn mining_job_describes_the_node_state() {
    let chain = Blockchain::new(genesis_block());
    let consensus = Consensus::new(initial_state(ts(0)));
    let mut pool = Mempool::new();
    pool.insert(tx("a"));
    pool.insert(tx("b"));
    let job = mining_job(&chain, &consensus, &pool);
    assert_eq!(job.parent_block_hash, chain.last_block().hash);
    assert_eq!(job.difficulty, consensus.state.difficulty.target);
    assert_eq!(job.target_block_time, TARGET_BLOCK_TIME);
    assert_eq!(job.height, 1);
    assert_eq!(job.transactions.len(), 2);
    assert!(job.transactions.contains(&tx("a")) && job.transactions.contains(&tx("b")));
}

fn job_with_target(difficulty: Vec<u8>, parent: Hash256) -> MiningJob {
    MiningJob { parent_block_hash: parent, difficulty, transactions: vec![tx("m")], target_block_time: 4, height: 1 }
}

#[test]
fn mine_block_with_trivial_target_takes_nonce_zero() {
    let job = job_with_target(vec![0xff; 32], Hash256([5u8; 32]));
    let block = mine_block(&job).expect("every hash meets this target");
    assert_eq!(block.nonce, 0);
    assert_eq!(block.hash, block.calculate_hash());
    assert_eq!(block.previous_hash, Some(Hash256([5u8; 32])));
    assert_eq!(block.transactions, job.transactions);
}

#[test]
fn mined_block_is_the_first_solution_and_is_accepted() {
    let genesis = genesis_block();
    let chain = Blockchain::new(genesis);
    let mut target = vec![0u8; 32];
    target[0] = 0x0f;
    for b in target.iter_mut().skip(1) {
        *b = 0xff;
    }
    let mut state = initial_state(ts(0));
    state.difficulty.target = target.clone();
    let consensus = Consensus::new(state);
    let pool = Mempool::new();
    let job = mining_job(&chain, &consensus, &pool);
    let block = mine_block(&job).expect("a solution is found");
    assert!(consensus.verify_valid_block(chain.last_block(), &block));
    for n in 0..block.nonce {
        let mut earlier = block.clone();
        earlier.nonce = n;
        assert!(!consensus.state.difficulty.verify(earlier.calculate_hash()));
    }
    let mut longer = chain;
    longer.blocks.push(block);
    assert!(longer.verify_integrity());
}

#[test]
fn search_nonce_reports_exhaustion() {
    let mut block = Block::new(vec![], None);
    block.nonce = u64::MAX - 2;
    let found = search_nonce(&mut block, &[]);
    assert!(!found);
    assert_eq!(block.nonce, u64::MAX);
}

#[test]
fn pushes_from_a_fresh_chain_retarget_once_every_five_blocks() {
    let mut chain = Blockchain::new(genesis_block());
    let mut consensus = Consensus::new(initial_state(ts(0)));
    let mut lengths = Vec::new();
    for i in 1..=14i64 {
        if push_block(&mut chain, &mut consensus, Block::new(vec![], None), ts(20 * i)) {
            lengths.push(chain.blocks.len());
        }
    }
    assert_eq!(lengths, vec![5, 10, 15]);
}
