//! Text renderings of numbers and byte strings, in the forms that Rust's
//! `Display` and derived `Debug` give them (`12`, `[1, 2]`, `Some(..)`,
//! `Name(..)`). Block hashes are taken over such text, so the renderings are
//! specified exactly.

use vstd::prelude::*;

verus! {

/// `String::push` appends one character to the end of the string.
pub assume_specification[ String::push ](s: &mut String, ch: char)
    ensures
        final(s)@ == old(s)@.push(ch),
;

/// The character of a decimal digit `d < 10`.
pub open spec fn digit_char(d: nat) -> char {
    (d + 48) as char
}

/// The decimal rendering of `n`, most significant digit first, with no
/// leading zeros (`0` renders as `"0"`).
pub open spec fn decimal(n: nat) -> Seq<char>
    decreases n,
{
    if n < 10 {
        seq![digit_char(n)]
    } else {
        decimal(n / 10).push(digit_char(n % 10))
    }
}

/// A decimal rendering is one or more digits, `'0'` to `'9'`.
pub proof fn lemma_decimal_is_digits(n: nat)
    ensures
        decimal(n).len() >= 1,
        forall|i: int| 0 <= i < decimal(n).len() ==> '0' <= #[trigger] decimal(n)[i] <= '9',
    decreases n,
{
    if n >= 10 {
        lemma_decimal_is_digits(n / 10);
    }
}

/// Different numbers have different decimal renderings.
pub proof fn lemma_decimal_injective(a: nat, b: nat)
    requires
        decimal(a) == decimal(b),
    ensures
        a == b,
    decreases a,
{
    if a < 10 && b < 10 {
        assert(decimal(a)[0] == digit_char(a));
        assert(decimal(b)[0] == digit_char(b));
    } else if a < 10 {
        lemma_decimal_is_digits(b / 10);
        assert(decimal(b).len() >= 2);
    } else if b < 10 {
        lemma_decimal_is_digits(a / 10);
        assert(decimal(a).len() >= 2);
    } else {
        let da = decimal(a);
        assert(da.last() == digit_char(a % 10));
        assert(decimal(b).last() == digit_char(b % 10));
        assert(da.drop_last() =~= decimal(a / 10));
        assert(decimal(b).drop_last() =~= decimal(b / 10));
        lemma_decimal_injective(a / 10, b / 10);
        assert(a == 10 * (a / 10) + a % 10);
        assert(b == 10 * (b / 10) + b % 10);
    }
}

/// The items of a byte list separated by `", "`.
pub open spec fn list_items(bytes: Seq<u8>) -> Seq<char>
    decreases bytes.len(),
{
    if bytes.len() == 0 {
        Seq::empty()
    } else if bytes.len() == 1 {
        decimal(bytes[0] as nat)
    } else {
        list_items(bytes.drop_last()) + ", "@ + decimal(bytes.last() as nat)
    }
}

/// The `Debug` rendering of a byte array or vector: `[1, 2, 3]`.
pub open spec fn byte_list(bytes: Seq<u8>) -> Seq<char> {
    "["@ + list_items(bytes) + "]"@
}

/// The derived `Debug` rendering of a one-field tuple struct: `Name(inner)`.
pub open spec fn tuple_text(name: Seq<char>, inner: Seq<char>) -> Seq<char> {
    name + "("@ + inner + ")"@
}

/// The `Debug` rendering of an `Option` whose payload renders as the given
/// text: `Some(..)` or `None`.
pub open spec fn option_text(payload: Option<Seq<char>>) -> Seq<char> {
    match payload {
        Some(inner) => "Some("@ + inner + ")"@,
        None => "None"@,
    }
}

/// The `Debug` rendering of a string: the text in double quotes, with the
/// escapes that Rust's `Debug` for `str` writes.
pub uninterp spec fn str_debug_text(s: Seq<char>) -> Seq<char>;

/// Formats `s` with `{:?}` (Rust's `Debug` for `str`). Trusted: the text is
/// taken to be `str_debug_text(s@)`, a function of the characters alone; the
/// escaping rules themselves are not stated.
#[verifier::external_body]
pub(crate) fn str_debug(s: &str) -> (text: String)
    ensures
        text@ == str_debug_text(s@),
{
    format!("{:?}", s)
}

/// Appends the decimal rendering of `n`.
pub fn push_decimal(out: &mut String, n: u64)
    ensures
        final(out)@ == old(out)@ + decimal(n as nat),
    decreases n,
{
    let ghost start = out@;
    if n >= 10 {
        push_decimal(out, n / 10);
    }
    let d: u8 = (n % 10) as u8;
    let c: char = (d + 48u8) as char;
    assert(c == digit_char((n % 10) as nat));
    out.push(c);
    assert(out@ =~= start + decimal(n as nat));
}

/// Appends the `Debug` rendering of a byte string, `[b0, b1, ...]`.
pub fn push_byte_list(out: &mut String, bytes: &[u8])
    ensures
        final(out)@ == old(out)@ + byte_list(bytes@),
{
    let ghost start = out@;
    out.append("[");
    let n = bytes.len();
    let mut i: usize = 0;
    while i < n
        invariant
            0 <= i <= n,
            n == bytes@.len(),
            out@ == start + "["@ + list_items(bytes@.take(i as int)),
        decreases n - i,
    {
        if i > 0 {
            out.append(", ");
        }
        push_decimal(out, bytes[i] as u64);
        proof {
            let next = bytes@.take(i + 1);
            assert(next.drop_last() =~= bytes@.take(i as int));
            assert(next.last() == bytes@[i as int]);
            assert(out@ =~= start + "["@ + list_items(next));
        }
        i += 1;
    }
    assert(bytes@.take(n as int) =~= bytes@);
    out.append("]");
    assert(out@ =~= start + byte_list(bytes@));
}

/// Appends `Name(` + the byte list + `)`, the derived `Debug` of a tuple
/// struct around a byte array.
pub fn push_tuple_bytes(out: &mut String, name: &str, bytes: &[u8])
    ensures
        final(out)@ == old(out)@ + tuple_text(name@, byte_list(bytes@)),
{
    let ghost start = out@;
    out.append(name);
    out.append("(");
    push_byte_list(out, bytes);
    out.append(")");
    assert(out@ =~= start + tuple_text(name@, byte_list(bytes@)));
}

} // verus!
