//! Transactions: a transfer or a message from one address, with a fee.

use crate::hashing::{
    bincode_standard_transaction, lemma_encoding_separates_fees, lemma_encoding_separates_nonces,
    sha256_of,
};
use crate::render::{
    byte_list, decimal, option_text, push_byte_list, push_decimal, push_tuple_bytes, str_debug,
    str_debug_text, tuple_text,
};
use crate::subtypes::{bytes32_eq, Address, Signature};
use vstd::prelude::*;

verus! {

/// A transaction. A message-only transaction has no recipient and no amount.
#[derive(Clone, Debug, Hash, PartialEq, Eq)]
pub struct Transaction {
    pub txid: String,
    pub from: Address,
    /// The recipient, `None` for a message-only transaction.
    pub to: Option<Address>,
    pub nonce: u64,
    pub fee: u64,
    pub size: usize,
    /// The amount transferred, `None` for a message-only transaction.
    pub amount: Option<u64>,
    pub message: Option<Vec<u8>>,
    pub signature: Signature,
}

/// What a transaction holds, as mathematical values.
pub struct TxView {
    pub txid: Seq<char>,
    pub from: Seq<u8>,
    pub to: Option<Seq<u8>>,
    pub nonce: u64,
    pub fee: u64,
    pub size: usize,
    pub amount: Option<u64>,
    pub message: Option<Seq<u8>>,
    pub signature: Seq<u8>,
}

impl View for Transaction {
    type V = TxView;

    open spec fn view(&self) -> TxView {
        TxView {
            txid: self.txid@,
            from: self.from.0@,
            to: match self.to {
                Some(a) => Some(a.0@),
                None => None,
            },
            nonce: self.nonce,
            fee: self.fee,
            size: self.size,
            amount: self.amount,
            message: match self.message {
                Some(m) => Some(m@),
                None => None,
            },
            signature: self.signature.0@,
        }
    }
}

/// The `Display` text of a transaction, field by field, with the `Debug`
/// renderings of the id, the addresses, the options and the signature.
pub open spec fn transaction_text(t: TxView) -> Seq<char> {
    "Transaction {\n  txid: "@ + str_debug_text(t.txid)
        + ",\n  from: "@ + tuple_text("Address"@, byte_list(t.from))
        + ",\n  to: "@ + option_text(
        match t.to {
            Some(a) => Some(tuple_text("Address"@, byte_list(a))),
            None => None,
        },
    ) + ",\n  nonce: "@ + decimal(t.nonce as nat)
        + ",\n  fee: "@ + decimal(t.fee as nat)
        + ",\n  size: "@ + decimal(t.size as nat)
        + ",\n  amount: "@ + option_text(
        match t.amount {
            Some(n) => Some(decimal(n as nat)),
            None => None,
        },
    ) + ",\n  message: "@ + option_text(
        match t.message {
            Some(m) => Some(byte_list(m)),
            None => None,
        },
    ) + ",\n  signature: "@ + tuple_text("Signature"@, byte_list(t.signature)) + "\n}"@
}

/// The hash of a transaction: SHA-256 over its bincode encoding (standard
/// configuration).
pub open spec fn transaction_hash(t: TxView) -> Seq<u8> {
    sha256_of(bincode_standard_transaction(t))
}

/// A transaction's hash is SHA-256 over the bincode encoding of the
/// transaction itself, every field as it is; and that encoding separates
/// transactions that differ only in their fee or only in their nonce.
pub proof fn lemma_transaction_hash_covers_every_field(t1: TxView, t2: TxView)
    ensures
        transaction_hash(t1) == sha256_of(bincode_standard_transaction(t1)),
        t1.fee != t2.fee && t2 == (TxView { fee: t2.fee, ..t1 }) ==> bincode_standard_transaction(t1)
            != bincode_standard_transaction(t2),
        t1.nonce != t2.nonce && t2 == (TxView { nonce: t2.nonce, ..t1 }) ==> bincode_standard_transaction(
            t1,
        ) != bincode_standard_transaction(t2),
{
    if t1.fee != t2.fee && t2 == (TxView { fee: t2.fee, ..t1 }) {
        lemma_encoding_separates_fees(t1, t2);
    }
    if t1.nonce != t2.nonce && t2 == (TxView { nonce: t2.nonce, ..t1 }) {
        lemma_encoding_separates_nonces(t1, t2);
    }
}

/// Copies a byte string.
pub fn copy_bytes(bytes: &[u8]) -> (copy: Vec<u8>)
    ensures
        copy@ == bytes@,
{
    let mut copy: Vec<u8> = Vec::new();
    let n = bytes.len();
    let mut i: usize = 0;
    while i < n
        invariant
            0 <= i <= n,
            n == bytes@.len(),
            copy@ == bytes@.take(i as int),
        decreases n - i,
    {
        copy.push(bytes[i]);
        assert(bytes@.take(i + 1) =~= bytes@.take(i as int).push(bytes@[i as int]));
        i += 1;
    }
    assert(bytes@.take(n as int) =~= bytes@);
    copy
}

/// Compares two byte strings.
pub fn bytes_eq(a: &[u8], b: &[u8]) -> (equal: bool)
    ensures
        equal == (a@ == b@),
{
    if a.len() != b.len() {
        return false;
    }
    let n = a.len();
    let mut i: usize = 0;
    while i < n
        invariant
            0 <= i <= n,
            n == a@.len(),
            n == b@.len(),
            forall|j: int| 0 <= j < i ==> a@[j] == b@[j],
        decreases n - i,
    {
        if a[i] != b[i] {
            return false;
        }
        i += 1;
    }
    assert(a@ =~= b@);
    true
}

impl Transaction {
    /// A new transaction; its size starts at zero.
    pub fn new(
        txid: String,
        from: Address,
        to: Option<Address>,
        nonce: u64,
        fee: u64,
        amount: Option<u64>,
        message: Option<Vec<u8>>,
        signature: Signature,
    ) -> (tx: Self)
        ensures
            tx.txid == txid,
            tx.from == from,
            tx.to == to,
            tx.nonce == nonce,
            tx.fee == fee,
            tx.size == 0,
            tx.amount == amount,
            tx.message == message,
            tx.signature == signature,
    {
        Self { txid, from, to, nonce, fee, size: 0, amount, message, signature }
    }

    /// A copy of the transaction with the same contents.
    pub fn duplicate(&self) -> (copy: Self)
        ensures
            copy@ == self@,
    {
        let message = match &self.message {
            Some(m) => Some(copy_bytes(m.as_slice())),
            None => None,
        };
        Transaction {
            txid: self.txid.clone(),
            from: self.from,
            to: self.to,
            nonce: self.nonce,
            fee: self.fee,
            size: self.size,
            amount: self.amount,
            message,
            signature: self.signature,
        }
    }

    /// Whether two transactions have the same contents, field by field.
    pub fn same_as(&self, other: &Transaction) -> (equal: bool)
        ensures
            equal == (self@ == other@),
    {
        if self.txid != other.txid {
            return false;
        }
        if !bytes32_eq(&self.from.0, &other.from.0) {
            return false;
        }
        let to_equal = match (&self.to, &other.to) {
            (Some(a), Some(b)) => bytes32_eq(&a.0, &b.0),
            (None, None) => true,
            _ => false,
        };
        if !to_equal {
            return false;
        }
        if self.nonce != other.nonce || self.fee != other.fee || self.size != other.size {
            return false;
        }
        let amount_equal = match (self.amount, other.amount) {
            (Some(a), Some(b)) => a == b,
            (None, None) => true,
            _ => false,
        };
        if !amount_equal {
            return false;
        }
        let message_equal = match (&self.message, &other.message) {
            (Some(a), Some(b)) => bytes_eq(a.as_slice(), b.as_slice()),
            (None, None) => true,
            _ => false,
        };
        if !message_equal {
            return false;
        }
        bytes32_eq(&self.signature.0, &other.signature.0)
    }

    /// The `Display` text of the transaction (see `transaction_text`).
    pub fn display_string(&self) -> (text: String)
        ensures
            text@ == transaction_text(self@),
    {
        let mut out = String::new();
        let ghost t = self@;
        out.append("Transaction {\n  txid: ");
        let id = str_debug(self.txid.as_str());
        out.append(id.as_str());
        out.append(",\n  from: ");
        push_tuple_bytes(&mut out, "Address", self.from.0.as_slice());
        out.append(",\n  to: ");
        let ghost to_text = option_text(
            match t.to {
                Some(a) => Some(tuple_text("Address"@, byte_list(a))),
                None => None,
            },
        );
        let ghost before_to = out@;
        match &self.to {
            Some(a) => {
                out.append("Some(");
                push_tuple_bytes(&mut out, "Address", a.0.as_slice());
                out.append(")");
            },
            None => {
                out.append("None");
            },
        }
        assert(out@ =~= before_to + to_text);
        out.append(",\n  nonce: ");
        push_decimal(&mut out, self.nonce);
        out.append(",\n  fee: ");
        push_decimal(&mut out, self.fee);
        out.append(",\n  size: ");
        push_decimal(&mut out, self.size as u64);
        out.append(",\n  amount: ");
        let ghost amount_text = option_text(
            match t.amount {
                Some(n) => Some(decimal(n as nat)),
                None => None,
            },
        );
        let ghost before_amount = out@;
        match self.amount {
            Some(n) => {
                out.append("Some(");
                push_decimal(&mut out, n);
                out.append(")");
            },
            None => {
                out.append("None");
            },
        }
        assert(out@ =~= before_amount + amount_text);
        out.append(",\n  message: ");
        let ghost message_text = option_text(
            match t.message {
                Some(m) => Some(byte_list(m)),
                None => None,
            },
        );
        let ghost before_message = out@;
        match &self.message {
            Some(m) => {
                out.append("Some(");
                push_byte_list(&mut out, m.as_slice());
                out.append(")");
            },
            None => {
                out.append("None");
            },
        }
        assert(out@ =~= before_message + message_text);
        out.append(",\n  signature: ");
        push_tuple_bytes(&mut out, "Signature", self.signature.0.as_slice());
        out.append("\n}");
        assert(out@ =~= transaction_text(t));
        out
    }
}

} // verus!
