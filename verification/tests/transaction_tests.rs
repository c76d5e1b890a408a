use pow::subtypes::{Address, Hash256, Seed, Signature};
use pow::transaction::Transaction;
use pow::wallet::Wallet;
use pow::block::Block;
use pow::render::{push_byte_list, push_decimal};
use sha2::{Digest, Sha256};

fn sample_tx(txid: &str, message: Option<Vec<u8>>, to: Option<Address>, amount: Option<u64>) -> Transaction {
    Transaction::new(
        txid.to_string(),
        Address([1u8; 32]),
        to,
        7,
        250,
        amount,
        message,
        Signature([9u8; 32]),
    )
}

fn expected_text(tx: &Transaction) -> String {
    let to_text = match &tx.to {
        Some(a) => format!("Some(Address({:?}))", a.0),
        None => "None".to_string(),
    };
    format!(
        "Transaction {{\n  txid: {:?},\n  from: Address({:?}),\n  to: {},\n  nonce: {},\n  fee: {},\n  size: {},\n  amount: {:?},\n  message: {:?},\n  signature: Signature({:?})\n}}",
        tx.txid, tx.from.0, to_text, tx.nonce, tx.fee, tx.size, tx.amount, tx.message, tx.signature.0
    )
}

#[test]
fn new_transaction_starts_with_size_zero() {
    let tx = sample_tx("abc", None, None, None);
    assert_eq!(tx.size, 0);
    assert_eq!(tx.txid, "abc");
    assert_eq!(tx.nonce, 7);
    assert_eq!(tx.fee, 250);
    assert_eq!(tx.from, Address([1u8; 32]));
    assert_eq!(tx.signature, Signature([9u8; 32]));
}

#[test]
fn display_of_message_transaction() {
    let tx = sample_tx("id-1", Some(b"hello world".to_vec()), None, None);
    assert_eq!(tx.display_string(), expected_text(&tx));
    assert!(tx.display_string().starts_with("Transaction {\n  txid: \"id-1\",\n  from: Address([1, 1,"));
}

#[test]
fn display_of_transfer_transaction() {
    let tx = sample_tx("42", None, Some(Address([255u8; 32])), Some(123456));
    assert_eq!(tx.display_string(), expected_text(&tx));
    assert!(tx.display_string().contains("amount: Some(123456),\n  message: None,"));
}

#[test]
fn display_escapes_the_id_as_debug_does() {
    let tx = sample_tx("a\"b\\c\n", Some(vec![]), None, Some(0));
    assert_eq!(tx.display_string(), expected_text(&tx));
    assert!(tx.display_string().contains("txid: \"a\\\"b\\\\c\\n\","));
    assert!(tx.display_string().contains("message: Some([]),"));
}

#[test]
fn duplicate_and_same_as() {
    let tx = sample_tx("x", Some(vec![1, 2, 3]), Some(Address([3u8; 32])), Some(5));
    let copy = tx.duplicate();
    assert!(tx.same_as(&copy));
    assert_eq!(tx, copy);
    let other = sample_tx("x", Some(vec![1, 2, 4]), Some(Address([3u8; 32])), Some(5));
    assert!(!tx.same_as(&other));
    let other_id = sample_tx("y", Some(vec![1, 2, 3]), Some(Address([3u8; 32])), Some(5));
    assert!(!tx.same_as(&other_id));
    let no_to = sample_tx("x", Some(vec![1, 2, 3]), None, Some(5));
    assert!(!tx.same_as(&no_to));
}

#[test]
fn address_from_seed_is_sha256_of_seed() {
    let address = Address::from_seed(&Seed([0u8; 32]));
    let expected: [u8; 32] = [
        0x66, 0x68, 0x7a, 0xad, 0xf8, 0x62, 0xbd, 0x77, 0x6c, 0x8f, 0xc1, 0x8b, 0x8e, 0x9f, 0x8e, 0x20,
        0x08, 0x97, 0x14, 0x85, 0x6e, 0xe2, 0x33, 0xb3, 0x90, 0x2a, 0x59, 0x1d, 0x0d, 0x5f, 0x29, 0x25,
    ];
    assert_eq!(address.0, expected);
}

#[test]
fn wallet_new_derives_address() {
    let seed = Seed([7u8; 32]);
    let wallet = Wallet::new(seed);
    assert_eq!(wallet.seed, seed);
    assert_eq!(wallet.address, Address::from_seed(&seed));
    let expected: [u8; 32] = Sha256::digest([7u8; 32]).into();
    assert_eq!(wallet.address.0, expected);
}

#[test]
fn hash_same_as() {
    let a = Hash256([1u8; 32]);
    let mut bytes = [1u8; 32];
    assert!(a.same_as(&Hash256(bytes)));
    bytes[31] = 2;
    assert!(!a.same_as(&Hash256(bytes)));
}

#[test]
fn transaction_hash_is_sha256_of_bincode_encoding() {
    let tx = sample_tx("a", None, None, None);
    // bincode standard: varint length + bytes for the id, raw arrays, 0 for None,
    // varints for the integers.
    let mut encoding: Vec<u8> = vec![1, b'a'];
    encoding.extend_from_slice(&[1u8; 32]);
    encoding.push(0);
    encoding.push(7);
    encoding.push(250);
    encoding.push(0);
    encoding.push(0);
    encoding.push(0);
    encoding.extend_from_slice(&[9u8; 32]);
    let expected: [u8; 32] = Sha256::digest(&encoding).into();
    assert_eq!(Block::hash_transaction(&tx).0, expected);
}

#[test]
fn transaction_hash_encodes_options_and_long_values() {
    let tx = sample_tx("", Some(vec![5, 6]), Some(Address([2u8; 32])), Some(300));
    let mut encoding: Vec<u8> = vec![0];
    encoding.extend_from_slice(&[1u8; 32]);
    encoding.push(1);
    encoding.extend_from_slice(&[2u8; 32]);
    encoding.push(7);
    encoding.push(250);
    encoding.push(0);
    encoding.extend_from_slice(&[1, 251, 44, 1]);
    encoding.extend_from_slice(&[1, 2, 5, 6]);
    encoding.extend_from_slice(&[9u8; 32]);
    let expected: [u8; 32] = Sha256::digest(&encoding).into();
    assert_eq!(Block::hash_transaction(&tx).0, expected);
}

#[test]
fn decimal_rendering() {
    for n in [0u64, 7, 10, 99, 12345, u64::MAX] {
        let mut s = String::from(">");
        push_decimal(&mut s, n);
        assert_eq!(s, format!(">{}", n));
    }
}

#[test]
fn byte_list_rendering() {
    for bytes in [vec![], vec![0u8], vec![1, 22, 255]] {
        let mut s = String::new();
        push_byte_list(&mut s, &bytes);
        assert_eq!(s, format!("{:?}", bytes));
    }
}
