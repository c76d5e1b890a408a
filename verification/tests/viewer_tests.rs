use pow::block::Block;
use pow::subtypes::{Address, Hash256, Signature};
use pow::transaction::Transaction;
use pow::viewer::{message_label, recipient_label, size_label};
use pow::viewer::{
    arrow_to_next, block_grid_cell, hash_preview, hex_string, nonce_label, previous_hash_label, short_txid, Arrow,
    Selection,
};

#[test]
fn hex_is_two_lowercase_digits_per_byte() {
    assert_eq!(hex_string(&[0x00, 0x0a, 0xff, 0x5c]), "000aff5c");
    assert_eq!(hex_string(&[]), "");
    let bytes: Vec<u8> = (0..=255).collect();
    let expected: String = bytes.iter().map(|b| format!("{:02x}", b)).collect();
    assert_eq!(hex_string(&bytes), expected);
}

#[test]
fn hash_preview_shows_eight_digits() {
    let mut bytes = [0u8; 32];
    bytes[0] = 0xde;
    bytes[1] = 0xad;
    bytes[2] = 0xbe;
    bytes[3] = 0xef;
    bytes[4] = 0x12;
    assert_eq!(hash_preview(&Hash256(bytes)), "deadbeef...");
}

#[test]
fn nonce_label_abbreviates_large_nonces() {
    assert_eq!(nonce_label(0), "0");
    assert_eq!(nonce_label(9999), "9999");
    assert_eq!(nonce_label(10000), "10k");
    assert_eq!(nonce_label(123456), "123k");
}

#[test]
fn previous_hash_labels() {
    assert_eq!(previous_hash_label(&None), "None (Genesis Block)");
    assert_eq!(previous_hash_label(&Some(Hash256([0xabu8; 32]))), "ab".repeat(32));
}

#[test]
fn short_txid_cuts_at_sixteen_bytes() {
    assert_eq!(short_txid(&"0123456789abcdef".to_string()), "0123456789abcdef");
    assert_eq!(short_txid(&"0123456789abcdefXYZ".to_string()), "0123456789abcdef...");
    assert_eq!(short_txid(&"".to_string()), "");
}

#[test]
fn grid_snakes_through_rows_of_ten() {
    assert_eq!(block_grid_cell(0), (0, 0));
    assert_eq!(block_grid_cell(9), (0, 9));
    assert_eq!(block_grid_cell(10), (1, 9));
    assert_eq!(block_grid_cell(19), (1, 0));
    assert_eq!(block_grid_cell(23), (2, 3));
}

#[test]
fn arrows_between_neighbours() {
    assert_eq!(arrow_to_next(0), Arrow::Horizontal { reversed: false });
    assert_eq!(arrow_to_next(9), Arrow::Wrap);
    assert_eq!(arrow_to_next(12), Arrow::Horizontal { reversed: true });
    assert_eq!(arrow_to_next(19), Arrow::Wrap);
}

fn blocks_with(counts: &[usize]) -> Vec<Block> {
    counts
        .iter()
        .map(|&n| {
            let txs: Vec<Transaction> = (0..n)
                .map(|i| Transaction::new(i.to_string(), Address([0u8; 32]), None, 0, 0, None, None, Signature([0u8; 32])))
                .collect();
            Block::new(txs, None)
        })
        .collect()
}

#[test]
fn selection_follows_clicks() {
    let blocks = blocks_with(&[0, 2, 0, 3, 1]);
    let mut s = Selection::new();
    s.click_block(3, &blocks);
    assert_eq!(s.selected_block, Some(3));
    s.open_transaction(1, &blocks);
    assert_eq!(s.selected_transaction, Some((3, 1)));
    s.close_transaction();
    assert_eq!(s.selected_transaction, None);
    assert_eq!(s.selected_block, Some(3));
    s.open_transaction(2, &blocks);
    s.click_block(4, &blocks);
    assert_eq!(s.selected_block, Some(4));
    assert_eq!(s.selected_transaction, None);
    s.click_block(4, &blocks);
    assert_eq!(s.selected_block, None);
    s.open_transaction(0, &blocks);
    assert_eq!(s.selected_transaction, None);
    s.click_block(1, &blocks);
    s.open_transaction(0, &blocks);
    s.close_block();
    assert_eq!(s, Selection::new());
}

#[test]
fn message_label_shows_text_or_hex() {
    assert_eq!(message_label(b"hello world"), "hello world");
    assert_eq!(message_label("h\u{e9}".as_bytes()), "h\u{e9}");
    assert_eq!(message_label(&[0xff, 0x00]), "0xff00");
    assert_eq!(message_label(&[]), "");
}

#[test]
fn recipient_and_size_labels() {
    assert_eq!(recipient_label(&None), "N/A (Message-only transaction)");
    assert_eq!(recipient_label(&Some(Address([1u8; 32]))), "01".repeat(32));
    assert_eq!(size_label(0), "0 bytes");
    assert_eq!(size_label(512), "512 bytes");
}
