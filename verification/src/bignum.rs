//! Unsigned big integers held as big-endian bytes; the arithmetic is done by
//! the `num-bigint` crate.

use num_bigint::BigUint;
use vstd::prelude::*;

verus! {

/// The number that big-endian `bytes` stand for (the empty string stands for
/// zero, and leading zero bytes do not change it).
pub open spec fn be_value(bytes: Seq<u8>) -> nat
    decreases bytes.len(),
{
    if bytes.len() == 0 {
        0
    } else {
        be_value(bytes.drop_last()) * 256 + bytes.last() as nat
    }
}

/// 256 to the power `n`.
pub open spec fn pow256(n: nat) -> nat
    decreases n,
{
    if n == 0 {
        1
    } else {
        256 * pow256((n - 1) as nat)
    }
}

/// Byte strings of the same length compared byte by byte from the first:
/// the first byte where they differ decides, and equal strings compare equal.
pub open spec fn lex_le(a: Seq<u8>, b: Seq<u8>) -> bool
    decreases a.len(),
{
    if a.len() == 0 || b.len() == 0 {
        true
    } else if a[0] < b[0] {
        true
    } else if a[0] > b[0] {
        false
    } else {
        lex_le(a.drop_first(), b.drop_first())
    }
}

/// `n` big-endian bytes stand for less than 256^n.
pub proof fn lemma_be_value_bound(bytes: Seq<u8>)
    ensures
        be_value(bytes) < pow256(bytes.len()),
    decreases bytes.len(),
{
    if bytes.len() > 0 {
        let rest = bytes.drop_last();
        lemma_be_value_bound(rest);
        let r = be_value(rest);
        let p = pow256(rest.len());
        let last = bytes.last() as nat;
        assert(r * 256 + last < 256 * p) by (nonlinear_arith)
            requires
                r < p,
                last < 256,
        ;
    }
}

/// The first byte of a big-endian string weighs 256^(n-1).
pub proof fn lemma_be_value_first(bytes: Seq<u8>)
    requires
        bytes.len() > 0,
    ensures
        be_value(bytes) == bytes[0] * pow256((bytes.len() - 1) as nat) + be_value(bytes.drop_first()),
    decreases bytes.len(),
{
    if bytes.len() == 1 {
        assert(bytes.drop_last() =~= Seq::<u8>::empty());
        assert(bytes.drop_first() =~= Seq::<u8>::empty());
        assert(be_value(bytes) == be_value(bytes.drop_last()) * 256 + bytes.last() as nat);
        assert(pow256(0) == 1);
        assert(bytes.last() == bytes[0]);
        assert(bytes[0] * pow256(0) == bytes[0]);
    } else {
        let rest = bytes.drop_last();
        lemma_be_value_first(rest);
        assert(rest.drop_first() =~= bytes.drop_first().drop_last());
        assert(bytes.drop_first().last() == bytes.last());
        let p = pow256((rest.len() - 1) as nat);
        let head = bytes[0] as nat;
        let tail = be_value(rest.drop_first());
        let last = bytes.last() as nat;
        assert(rest[0] == bytes[0]);
        assert(be_value(rest) == head * p + tail);
        assert(be_value(bytes) == be_value(rest) * 256 + last);
        assert(be_value(bytes.drop_first()) == be_value(bytes.drop_first().drop_last()) * 256
            + bytes.drop_first().last() as nat);
        assert(be_value(bytes.drop_first()) == tail * 256 + last);
        assert(pow256((bytes.len() - 1) as nat) == 256 * p);
        assert((head * p + tail) * 256 + last == head * (256 * p) + (tail * 256 + last))
            by (nonlinear_arith);
    }
}

/// For big-endian strings of the same length, comparing the numbers is
/// comparing the bytes from the first on.
pub proof fn lemma_be_le_is_lexicographic(a: Seq<u8>, b: Seq<u8>)
    requires
        a.len() == b.len(),
    ensures
        (be_value(a) <= be_value(b)) == lex_le(a, b),
    decreases a.len(),
{
    if a.len() > 0 {
        lemma_be_value_first(a);
        lemma_be_value_first(b);
        lemma_be_value_bound(a.drop_first());
        lemma_be_value_bound(b.drop_first());
        lemma_be_le_is_lexicographic(a.drop_first(), b.drop_first());
        let p = pow256((a.len() - 1) as nat);
        let x = a[0] as nat;
        let y = b[0] as nat;
        let ra = be_value(a.drop_first());
        let rb = be_value(b.drop_first());
        if x < y {
            assert(x * p + ra < y * p + rb) by (nonlinear_arith)
                requires
                    x < y,
                    ra < p,
            ;
        } else if x > y {
            assert(y * p + rb < x * p + ra) by (nonlinear_arith)
                requires
                    y < x,
                    rb < p,
            ;
        }
    }
}

/// Compares two big-endian numbers with `BigUint`'s `<=`, after
/// `BigUint::from_bytes_be` on each. Trusted: the result is taken to be the
/// comparison of the numbers that the bytes stand for.
#[verifier::external_body]
pub(crate) fn be_le(a: &[u8], b: &[u8]) -> (le: bool)
    ensures
        le == (be_value(a@) <= be_value(b@)),
{
    BigUint::from_bytes_be(a) <= BigUint::from_bytes_be(b)
}

/// Multiplies a big-endian number by `k` with `BigUint`'s `*` and returns
/// `to_bytes_be` of the product. Trusted: the bytes are taken to stand for
/// the exact product.
#[verifier::external_body]
pub(crate) fn be_mul(a: &[u8], k: u64) -> (product: Vec<u8>)
    ensures
        be_value(product@) == be_value(a@) * k,
{
    (BigUint::from_bytes_be(a) * BigUint::from(k)).to_bytes_be()
}

/// Divides a big-endian number by `k > 0` with `BigUint`'s `/` (which rounds
/// down) and returns `to_bytes_be` of the quotient. Trusted: the bytes are
/// taken to stand for the exact floor quotient. `BigUint` division by zero
/// panics, so `k` must not be zero.
#[verifier::external_body]
pub(crate) fn be_div(a: &[u8], k: u64) -> (quotient: Vec<u8>)
    requires
        k > 0,
    ensures
        be_value(quotient@) == be_value(a@) / (k as nat),
{
    (BigUint::from_bytes_be(a) / BigUint::from(k)).to_bytes_be()
}

} // verus!
