//! SHA-256 digests, through the `sha2` crate, and the bincode encoding of a
//! transaction, through the `bincode` crate.

use crate::bignum::pow256;
use crate::transaction::{Transaction, TxView};
use sha2::{Digest, Sha256};
use vstd::prelude::*;

verus! {

/// The SHA-256 digest of a byte string, as `sha2::Sha256` computes it.
pub uninterp spec fn sha256_of(data: Seq<u8>) -> Seq<u8>;

/// Calls `sha2::Sha256::digest` on `data` and returns the 32 bytes of the
/// digest. Trusted: the digest is taken to be `sha256_of(data@)`, a function of
/// the input bytes alone; nothing more is claimed of it.
#[verifier::external_body]
pub(crate) fn sha256(data: &[u8]) -> (digest: [u8; 32])
    ensures
        digest@ == sha256_of(data@),
{
    Sha256::digest(data).into()
}

/// `n` bytes of `v`, least significant first (the `to_le_bytes` of a `u16`,
/// `u32` or `u64` holding `v`, for `n` = 2, 4, 8).
pub open spec fn le_bytes(v: nat, n: nat) -> Seq<u8>
    decreases n,
{
    if n == 0 {
        Seq::empty()
    } else {
        seq![(v % 256) as u8] + le_bytes(v / 256, (n - 1) as nat)
    }
}

/// bincode's variable-length encoding of an unsigned integer (little endian):
/// one byte up to 250, else a marker byte 251, 252 or 253 followed by the
/// value in 2, 4 or 8 bytes.
pub open spec fn bincode_varint(v: nat) -> Seq<u8> {
    if v <= 250 {
        seq![v as u8]
    } else if v <= 0xffff {
        seq![251u8] + le_bytes(v, 2)
    } else if v <= 0xffff_ffff {
        seq![252u8] + le_bytes(v, 4)
    } else {
        seq![253u8] + le_bytes(v, 8)
    }
}

/// Values below 256^n have different `n`-byte little-endian forms.
pub proof fn lemma_le_bytes_injective(a: nat, b: nat, n: nat)
    requires
        a < pow256(n),
        b < pow256(n),
        le_bytes(a, n) == le_bytes(b, n),
    ensures
        a == b,
    decreases n,
{
    if n > 0 {
        let m = (n - 1) as nat;
        assert(le_bytes(a, n)[0] == (a % 256) as u8);
        assert(le_bytes(b, n)[0] == (b % 256) as u8);
        assert(le_bytes(a, n).drop_first() =~= le_bytes(a / 256, m));
        assert(le_bytes(b, n).drop_first() =~= le_bytes(b / 256, m));
        assert(a / 256 < pow256(m)) by (nonlinear_arith)
            requires
                a < 256 * pow256(m),
        ;
        assert(b / 256 < pow256(m)) by (nonlinear_arith)
            requires
                b < 256 * pow256(m),
        ;
        lemma_le_bytes_injective(a / 256, b / 256, m);
        assert(a == 256 * (a / 256) + a % 256);
        assert(b == 256 * (b / 256) + b % 256);
    }
}

/// Different 64-bit values have different varint encodings.
pub proof fn lemma_varint_injective(a: nat, b: nat)
    requires
        a <= u64::MAX,
        b <= u64::MAX,
        bincode_varint(a) == bincode_varint(b),
    ensures
        a == b,
{
    let ea = bincode_varint(a);
    let eb = bincode_varint(b);
    assert(ea[0] == eb[0]);
    assert(pow256(2) == 0x1_0000) by {
        assert(pow256(0) == 1);
        assert(pow256(1) == 256);
    }
    assert(pow256(4) == 0x1_0000_0000) by {
        assert(pow256(3) == 0x100_0000);
    }
    assert(pow256(8) == 0x1_0000_0000_0000_0000) by {
        assert(pow256(5) == 0x100_0000_0000);
        assert(pow256(6) == 0x1_0000_0000_0000);
        assert(pow256(7) == 0x100_0000_0000_0000);
    }
    if a > 250 && b > 250 {
        assert(ea.drop_first() == eb.drop_first());
        if a <= 0xffff {
            assert(ea.drop_first() =~= le_bytes(a, 2));
            assert(eb.drop_first() =~= le_bytes(b, 2));
            lemma_le_bytes_injective(a, b, 2);
        } else if a <= 0xffff_ffff {
            assert(ea.drop_first() =~= le_bytes(a, 4));
            assert(eb.drop_first() =~= le_bytes(b, 4));
            lemma_le_bytes_injective(a, b, 4);
        } else {
            assert(ea.drop_first() =~= le_bytes(a, 8));
            assert(eb.drop_first() =~= le_bytes(b, 8));
            lemma_le_bytes_injective(a, b, 8);
        }
    }
}

/// Changing one piece in the middle of a sequence changes the sequence.
proof fn lemma_changed_piece(prefix: Seq<u8>, x: Seq<u8>, y: Seq<u8>, suffix: Seq<u8>)
    requires
        x != y,
    ensures
        prefix + x + suffix != prefix + y + suffix,
{
    if x.len() == y.len() {
        assert(!(x =~= y));
        let i = choose|i: int| 0 <= i < x.len() && x[i] != y[i];
        assert((prefix + x + suffix)[prefix.len() + i] == x[i]);
        assert((prefix + y + suffix)[prefix.len() + i] == y[i]);
    } else {
        assert((prefix + x + suffix).len() != (prefix + y + suffix).len());
    }
}

/// bincode's encoding of a byte string (a `str`'s bytes or a `Vec<u8>`): its
/// length as a varint, then the bytes.
pub open spec fn bincode_length_prefixed(bytes: Seq<u8>) -> Seq<u8> {
    bincode_varint(bytes.len()) + bytes
}

/// bincode's encoding of an `Option` whose payload encodes as the given bytes:
/// a tag byte 0 for `None`, or 1 followed by the payload.
pub open spec fn bincode_option(payload: Option<Seq<u8>>) -> Seq<u8> {
    match payload {
        None => seq![0u8],
        Some(p) => seq![1u8] + p,
    }
}

/// The bytes of `bincode::encode_to_vec` with `bincode::config::standard()`
/// (little endian, variable-length integers) on a transaction's fields, in
/// declaration order: the id's UTF-8 bytes with their length, the sender's
/// 32 bytes, the optional recipient's 32 bytes, the nonce, fee and size as
/// varints, the optional amount as a varint, the optional message with its
/// length, and the signature's 32 bytes.
pub open spec fn bincode_standard_transaction(tx: TxView) -> Seq<u8> {
    bincode_length_prefixed(vstd::utf8::encode_utf8(tx.txid)) + tx.from + bincode_option(tx.to)
        + bincode_varint(tx.nonce as nat) + bincode_varint(tx.fee as nat) + bincode_varint(
        tx.size as nat,
    ) + bincode_option(
        match tx.amount {
            Some(a) => Some(bincode_varint(a as nat)),
            None => None,
        },
    ) + bincode_option(
        match tx.message {
            Some(m) => Some(bincode_length_prefixed(m)),
            None => None,
        },
    ) + tx.signature
}

/// The encoding keeps every fee: two transactions that differ only in their
/// fee encode differently.
pub proof fn lemma_encoding_separates_fees(t1: TxView, t2: TxView)
    requires
        t1.fee != t2.fee,
        t2 == (TxView { fee: t2.fee, ..t1 }),
    ensures
        bincode_standard_transaction(t1) != bincode_standard_transaction(t2),
{
    let prefix = bincode_length_prefixed(vstd::utf8::encode_utf8(t1.txid)) + t1.from + bincode_option(
        t1.to,
    ) + bincode_varint(t1.nonce as nat);
    let suffix = bincode_varint(t1.size as nat) + bincode_option(
        match t1.amount {
            Some(a) => Some(bincode_varint(a as nat)),
            None => None,
        },
    ) + bincode_option(
        match t1.message {
            Some(m) => Some(bincode_length_prefixed(m)),
            None => None,
        },
    ) + t1.signature;
    if bincode_varint(t1.fee as nat) == bincode_varint(t2.fee as nat) {
        lemma_varint_injective(t1.fee as nat, t2.fee as nat);
    }
    lemma_changed_piece(
        prefix,
        bincode_varint(t1.fee as nat),
        bincode_varint(t2.fee as nat),
        suffix,
    );
    assert(bincode_standard_transaction(t1) =~= prefix + bincode_varint(t1.fee as nat) + suffix);
    assert(bincode_standard_transaction(t2) =~= prefix + bincode_varint(t2.fee as nat) + suffix);
}

/// The encoding keeps every nonce: two transactions that differ only in their
/// nonce encode differently.
pub proof fn lemma_encoding_separates_nonces(t1: TxView, t2: TxView)
    requires
        t1.nonce != t2.nonce,
        t2 == (TxView { nonce: t2.nonce, ..t1 }),
    ensures
        bincode_standard_transaction(t1) != bincode_standard_transaction(t2),
{
    let prefix = bincode_length_prefixed(vstd::utf8::encode_utf8(t1.txid)) + t1.from + bincode_option(
        t1.to,
    );
    let suffix = bincode_varint(t1.fee as nat) + bincode_varint(t1.size as nat) + bincode_option(
        match t1.amount {
            Some(a) => Some(bincode_varint(a as nat)),
            None => None,
        },
    ) + bincode_option(
        match t1.message {
            Some(m) => Some(bincode_length_prefixed(m)),
            None => None,
        },
    ) + t1.signature;
    if bincode_varint(t1.nonce as nat) == bincode_varint(t2.nonce as nat) {
        lemma_varint_injective(t1.nonce as nat, t2.nonce as nat);
    }
    lemma_changed_piece(
        prefix,
        bincode_varint(t1.nonce as nat),
        bincode_varint(t2.nonce as nat),
        suffix,
    );
    assert(bincode_standard_transaction(t1) =~= prefix + bincode_varint(t1.nonce as nat) + suffix);
    assert(bincode_standard_transaction(t2) =~= prefix + bincode_varint(t2.nonce as nat) + suffix);
}

/// Encodes a transaction's fields, in declaration order, with
/// `bincode::encode_to_vec` and `bincode::config::standard()` (a tuple of the
/// fields encodes as the derived `Encode` of the struct does: field after
/// field). Trusted: the bytes are taken to be
/// `bincode_standard_transaction(tx@)`, bincode's format for these field
/// types as its source writes them (`varint_encode_u64` for integers and
/// lengths, a `u8` tag for options, raw bytes for arrays). The
/// `expect` never fires: encoding into a `Vec` only fails when the writer
/// fails, and bincode's `VecWriter` always succeeds.
#[verifier::external_body]
pub(crate) fn bincode_encode_transaction(tx: &Transaction) -> (bytes: Vec<u8>)
    ensures
        bytes@ == bincode_standard_transaction(tx@),
{
    bincode::encode_to_vec(
        (
            tx.txid.as_str(),
            tx.from.0,
            tx.to.map(|a| a.0),
            tx.nonce,
            tx.fee,
            tx.size,
            tx.amount,
            &tx.message,
            tx.signature.0,
        ),
        bincode::config::standard(),
    ).expect("encoding into a vector does not fail")
}

} // verus!
