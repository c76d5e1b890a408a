use pow::sample::{decimal_string, sample_batch_transaction, sample_message, sample_transaction};
use pow::subtypes::{Address, Signature};

#[test]
fn sample_messages() {
    assert_eq!(sample_message(0), b"hello world".to_vec());
    assert_eq!(sample_message(7), b"validating tx".to_vec());
    assert_eq!(sample_message(8), b"gm ser".to_vec());
    assert_eq!(sample_message(9), b"wagmi".to_vec());
}

#[test]
fn decimal_ids() {
    assert_eq!(decimal_string(0), "0");
    assert_eq!(decimal_string(4096), "4096");
}

#[test]
fn single_sample_has_amount_only_with_recipient() {
    let with_to = sample_transaction(3, Address([1; 32]), Some(Address([2; 32])), 9, 150, 5000, Some(2), Signature([0; 32]));
    assert_eq!(with_to.txid, "3");
    assert_eq!(with_to.amount, Some(5000));
    assert_eq!(with_to.message, Some(b"blockchain rocks".to_vec()));
    assert_eq!(with_to.size, 0);
    let message_only = sample_transaction(4, Address([1; 32]), None, 9, 150, 5000, None, Signature([0; 32]));
    assert_eq!(message_only.amount, None);
    assert_eq!(message_only.message, None);
}

#[test]
fn batch_sample_is_transfer_or_message() {
    let transfer = sample_batch_transaction(10, Address([1; 32]), Some((Address([3; 32]), 777)), 1, 2, 300, Signature([4; 32]));
    assert_eq!(transfer.to, Some(Address([3; 32])));
    assert_eq!(transfer.amount, Some(777));
    assert_eq!(transfer.message, None);
    assert_eq!(transfer.txid, "10");
    let message = sample_batch_transaction(11, Address([1; 32]), None, 9, 2, 300, Signature([4; 32]));
    assert_eq!(message.to, None);
    assert_eq!(message.amount, None);
    assert_eq!(message.message, Some(b"wagmi".to_vec()));
}
