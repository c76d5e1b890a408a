//! Sample transactions, built from random draws made elsewhere, to keep a
//! node busy while testing.

use crate::render::{decimal, push_decimal};
use crate::subtypes::{Address, Signature};
use crate::transaction::Transaction;
use vstd::prelude::*;

verus! {

/// How many sample messages there are; the single-transaction generator uses
/// the first `SINGLE_MESSAGE_COUNT` of them.
pub const SAMPLE_MESSAGE_COUNT: usize = 10usize;

/// The sample messages of the single-transaction generator.
pub const SINGLE_MESSAGE_COUNT: usize = 8usize;

/// The sample message texts.
pub open spec fn sample_message_text(index: int) -> Seq<char> {
    if index == 0 {
        "hello world"@
    } else if index == 1 {
        "test transaction"@
    } else if index == 2 {
        "blockchain rocks"@
    } else if index == 3 {
        "random message"@
    } else if index == 4 {
        "decentralized network"@
    } else if index == 5 {
        "consensus achieved"@
    } else if index == 6 {
        "mining block"@
    } else if index == 7 {
        "validating tx"@
    } else if index == 8 {
        "gm ser"@
    } else {
        "wagmi"@
    }
}

/// The UTF-8 bytes of sample message `index`.
pub fn sample_message(index: usize) -> (message: Vec<u8>)
    requires
        index < SAMPLE_MESSAGE_COUNT,
    ensures
        message@ == vstd::utf8::encode_utf8(sample_message_text(index as int)),
{
    let text: &str = if index == 0 {
        "hello world"
    } else if index == 1 {
        "test transaction"
    } else if index == 2 {
        "blockchain rocks"
    } else if index == 3 {
        "random message"
    } else if index == 4 {
        "decentralized network"
    } else if index == 5 {
        "consensus achieved"
    } else if index == 6 {
        "mining block"
    } else if index == 7 {
        "validating tx"
    } else if index == 8 {
        "gm ser"
    } else {
        "wagmi"
    };
    text.as_bytes_vec()
}

/// The decimal text of `n` (its `to_string`).
pub fn decimal_string(n: u64) -> (text: String)
    ensures
        text@ == decimal(n as nat),
{
    let mut text = String::new();
    push_decimal(&mut text, n);
    assert(text@ =~= decimal(n as nat));
    text
}

/// A sample transaction of the single generator: numbered `id`, an amount only
/// when there is a recipient, and optionally one of its sample messages.
pub fn sample_transaction(
    id: u64,
    from: Address,
    to: Option<Address>,
    nonce: u64,
    fee: u64,
    amount_draw: u64,
    message_index: Option<usize>,
    signature: Signature,
) -> (tx: Transaction)
    requires
        message_index matches Some(i) ==> i < SINGLE_MESSAGE_COUNT,
    ensures
        tx.txid@ == decimal(id as nat),
        tx.from == from,
        tx.to == to,
        tx.nonce == nonce,
        tx.fee == fee,
        tx.size == 0,
        tx.amount == if to is Some {
            Some(amount_draw)
        } else {
            None::<u64>
        },
        message_index is None ==> tx.message is None,
        message_index matches Some(i) ==> (tx.message matches Some(m) && m@
            == vstd::utf8::encode_utf8(sample_message_text(i as int))),
        tx.signature == signature,
{
    let amount = if to.is_some() {
        Some(amount_draw)
    } else {
        None
    };
    let message = match message_index {
        Some(i) => Some(sample_message(i)),
        None => None,
    };
    Transaction::new(decimal_string(id), from, to, nonce, fee, amount, message, signature)
}

/// A sample transaction of the batch generator: a transfer to a recipient
/// with an amount and no message, or else a message alone.
pub fn sample_batch_transaction(
    id: u64,
    from: Address,
    transfer: Option<(Address, u64)>,
    message_index: usize,
    nonce: u64,
    fee: u64,
    signature: Signature,
) -> (tx: Transaction)
    requires
        message_index < SAMPLE_MESSAGE_COUNT,
    ensures
        tx.txid@ == decimal(id as nat),
        tx.from == from,
        tx.nonce == nonce,
        tx.fee == fee,
        tx.size == 0,
        tx.signature == signature,
        transfer matches Some((to, amount)) ==> tx.to == Some(to) && tx.amount == Some(amount)
            && tx.message is None,
        transfer is None ==> tx.to is None && tx.amount is None && (tx.message matches Some(m)
            && m@ == vstd::utf8::encode_utf8(sample_message_text(message_index as int))),
{
    let (to, amount, message) = match transfer {
        Some((to, amount)) => (Some(to), Some(amount), None),
        None => (None, None, Some(sample_message(message_index))),
    };
    Transaction::new(decimal_string(id), from, to, nonce, fee, amount, message, signature)
}

} // verus!
