use num_bigint::BigUint;
use pow::block::Block;
use pow::clock::{whole_seconds_between, Timestamp};
use pow::consensus::{Consensus, State, ADJUSTMENT_INTERVAL, TARGET_BLOCK_TIME};
use pow::difficulty::Difficulty;
use pow::subtypes::Hash256;

fn ts(secs: i64, nanos: u32) -> Timestamp {
    Timestamp { secs, nanos }
}

fn state(target: &[u8], start: Timestamp) -> State {
    State { difficulty: Difficulty { target: target.to_vec() }, start_window_time: start }
}

fn value(bytes: &[u8]) -> BigUint {
    BigUint::from_bytes_be(bytes)
}

const TARGET: [u8; 4] = [0, 1, 0, 0]; // 65536

#[test]
fn constants() {
    assert_eq!(TARGET_BLOCK_TIME, 4);
    assert_eq!(ADJUSTMENT_INTERVAL, 5);
}

#[test]
fn whole_seconds_truncate_toward_zero() {
    assert_eq!(whole_seconds_between(ts(0, 0), ts(10, 0)), 10);
    assert_eq!(whole_seconds_between(ts(0, 500_000_000), ts(1, 0)), 0);
    assert_eq!(whole_seconds_between(ts(1, 0), ts(0, 500_000_000)), 0);
    assert_eq!(whole_seconds_between(ts(0, 0), ts(-2, 500_000_000)), -1);
    assert_eq!(whole_seconds_between(ts(5, 999_999_999), ts(7, 0)), 1);
    assert_eq!(whole_seconds_between(ts(i64::MIN, 0), ts(i64::MAX, 0)), u64::MAX as i128);
}

#[test]
fn verify_compares_as_big_endian_numbers() {
    let d = Difficulty { target: vec![0, 0, 0x0f, 0xff] };
    let mut small = [0u8; 32];
    small[31] = 0xff;
    small[30] = 0x0f;
    assert!(d.verify(Hash256(small)));
    small[29] = 1;
    assert!(!d.verify(Hash256(small)));
    assert!(d.verify(Hash256([0u8; 32])));
    assert!(!d.verify(Hash256([0xffu8; 32])));
    let empty = Difficulty { target: vec![] };
    assert!(empty.verify(Hash256([0u8; 32])));
    assert!(!empty.verify(Hash256([1u8; 32])));
}

#[test]
fn adjust_slow_window_is_capped_at_four_times() {
    let mut s = state(&TARGET, ts(0, 0));
    s.adjust_difficulty(ts(100, 0)); // factor 100 / 20 = 5, capped at 4
    assert_eq!(value(&s.difficulty.target), value(&TARGET) * 4u32);
    assert_eq!(s.start_window_time, ts(100, 0));
}

#[test]
fn adjust_scales_by_whole_window_ratio() {
    let mut s = state(&TARGET, ts(0, 0));
    s.adjust_difficulty(ts(40, 0)); // factor 2
    assert_eq!(value(&s.difficulty.target), value(&TARGET) * 2u32);
    let mut s = state(&TARGET, ts(0, 0));
    s.adjust_difficulty(ts(59, 999_999_999)); // 59 whole seconds: factor 2
    assert_eq!(value(&s.difficulty.target), value(&TARGET) * 2u32);
    let mut s = state(&TARGET, ts(0, 0));
    s.adjust_difficulty(ts(20, 0)); // factor 1
    assert_eq!(value(&s.difficulty.target), value(&TARGET));
}

#[test]
fn adjust_fast_window_is_floored_at_a_quarter() {
    let mut s = state(&TARGET, ts(0, 0));
    s.adjust_difficulty(ts(10, 0)); // factor 0, raised to a quarter
    assert_eq!(value(&s.difficulty.target), value(&TARGET) / 4u32);
    let mut s = state(&TARGET, ts(50, 0));
    s.adjust_difficulty(ts(0, 0)); // negative window counts as one second
    assert_eq!(value(&s.difficulty.target), value(&TARGET) / 4u32);
}

#[test]
fn verify_valid_block_checks_target_hash_and_parent() {
    let mut last = Block::new(vec![], None);
    last.hash = last.calculate_hash();
    let consensus = Consensus::new(state(&[0xffu8; 33], ts(0, 0)));
    let mut block = Block::new(vec![], Some(last.hash));
    block.hash = block.calculate_hash();
    assert!(consensus.verify_valid_block(&last, &block));

    let mut stale = block.clone();
    stale.nonce += 1;
    assert!(!consensus.verify_valid_block(&last, &stale));

    let mut orphan = Block::new(vec![], Some(Hash256([1u8; 32])));
    orphan.hash = orphan.calculate_hash();
    assert!(!consensus.verify_valid_block(&last, &orphan));

    let strict = Consensus::new(state(&[0u8], ts(0, 0)));
    assert!(!strict.verify_valid_block(&last, &block));
}

#[test]
fn a_larger_target_accepts_what_a_smaller_one_does() {
    let mut hash = [0u8; 32];
    hash[31] = 0x80;
    let small = Difficulty { target: vec![0x80] };
    let larger = Difficulty { target: vec![0x01, 0x00] };
    assert!(small.verify(Hash256(hash)));
    assert!(larger.verify(Hash256(hash)));
    hash[31] = 0x81;
    assert!(!small.verify(Hash256(hash)));
    assert!(larger.verify(Hash256(hash)));
}

#[test]
fn a_later_stop_never_lowers_the_target() {
    let mut last = BigUint::from(0u8);
    for stop in [0i64, 10, 19, 20, 39, 40, 61, 80, 100, 1000] {
        let mut s = state(&TARGET, ts(0, 0));
        s.adjust_difficulty(ts(stop, 0));
        let value = value(&s.difficulty.target);
        assert!(value >= last);
        last = value;
    }
}
