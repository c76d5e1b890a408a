//! The decisions of the chain explorer that do not depend on the screen:
//! where a block sits in the grid, how arrows join blocks, the labels it
//! shows, and which block and transaction are selected.

use crate::render::{decimal, push_decimal};
use crate::block::Block;
use crate::subtypes::{Address, Hash256};
use vstd::string::StringSliceAdditionalSpecFns;
use vstd::prelude::*;

verus! {

broadcast use vstd::array::group_array_axioms;

/// The number of blocks in a row of the explorer's grid.
pub const BLOCKS_PER_ROW: usize = 10usize;

/// The lowercase hexadecimal digit of `d < 16`.
pub open spec fn hex_digit(d: nat) -> char {
    if d < 10 {
        (d + 48) as char
    } else {
        (d + 87) as char
    }
}

/// Two lowercase hexadecimal digits per byte (the `{:02x}` of each byte).
pub open spec fn hex_text(bytes: Seq<u8>) -> Seq<char>
    decreases bytes.len(),
{
    if bytes.len() == 0 {
        Seq::empty()
    } else {
        hex_text(bytes.drop_last()) + seq![
            hex_digit((bytes.last() / 16) as nat),
            hex_digit((bytes.last() % 16) as nat),
        ]
    }
}

/// The hex text of a prefix is the prefix of the hex text, two characters per
/// byte.
pub proof fn lemma_hex_text_prefix(bytes: Seq<u8>, k: int)
    requires
        0 <= k <= bytes.len(),
    ensures
        hex_text(bytes).len() == 2 * bytes.len(),
        hex_text(bytes.take(k)) == hex_text(bytes).take(2 * k),
    decreases bytes.len(),
{
    if bytes.len() > 0 {
        assert(bytes.take(bytes.len() as int) =~= bytes);
        if k < bytes.len() {
            assert(bytes.drop_last().take(k) =~= bytes.take(k));
            lemma_hex_text_prefix(bytes.drop_last(), k);
            assert(hex_text(bytes).take(2 * k) =~= hex_text(bytes.drop_last()).take(2 * k));
        } else {
            lemma_hex_text_prefix(bytes.drop_last(), 0);
            assert(hex_text(bytes).take(2 * k) =~= hex_text(bytes));
        }
    } else {
        assert(bytes.take(k) =~= bytes);
        assert(hex_text(bytes).take(0) =~= hex_text(bytes));
    }
}

fn hex_char(d: u8) -> (c: char)
    requires
        d < 16,
    ensures
        c == hex_digit(d as nat),
{
    if d < 10 {
        (d + 48u8) as char
    } else {
        (d + 87u8) as char
    }
}

/// The lowercase hex text of `bytes`.
pub fn hex_string(bytes: &[u8]) -> (text: String)
    ensures
        text@ == hex_text(bytes@),
{
    let mut text = String::new();
    let n = bytes.len();
    let mut i: usize = 0;
    while i < n
        invariant
            0 <= i <= n,
            n == bytes@.len(),
            text@ == hex_text(bytes@.take(i as int)),
        decreases n - i,
    {
        let b = bytes[i];
        text.push(hex_char(b / 16));
        text.push(hex_char(b % 16));
        proof {
            let next = bytes@.take(i + 1);
            assert(next.drop_last() =~= bytes@.take(i as int));
            assert(next.last() == b);
            assert(text@ =~= hex_text(next));
        }
        i += 1;
    }
    assert(bytes@.take(n as int) =~= bytes@);
    text
}

/// The short form of a hash shown on a block: its first eight hex digits and
/// an ellipsis.
pub fn hash_preview(hash: &Hash256) -> (text: String)
    ensures
        text@ == hex_text(hash@).take(8) + "..."@,
{
    let head: &[u8] = hash.0.as_slice();
    let mut first: Vec<u8> = Vec::new();
    let mut i: usize = 0;
    while i < 4
        invariant
            0 <= i <= 4,
            head@ == hash@,
            head@.len() == 32,
            first@ == head@.take(i as int),
        decreases 4 - i,
    {
        first.push(head[i]);
        assert(head@.take(i + 1) =~= head@.take(i as int).push(head@[i as int]));
        i += 1;
    }
    let mut text = hex_string(first.as_slice());
    proof {
        lemma_hex_text_prefix(hash@, 4);
    }
    text.append("...");
    text
}

/// The nonce as a block shows it: in thousands with a `k` above 9999.
pub fn nonce_label(nonce: u64) -> (text: String)
    ensures
        text@ == if nonce > 9999 {
            decimal((nonce / 1000) as nat) + "k"@
        } else {
            decimal(nonce as nat)
        },
{
    let mut text = String::new();
    if nonce > 9999 {
        push_decimal(&mut text, nonce / 1000);
        text.append("k");
    } else {
        push_decimal(&mut text, nonce);
    }
    assert(text@ =~= if nonce > 9999 {
        decimal((nonce / 1000) as nat) + "k"@
    } else {
        decimal(nonce as nat)
    });
    text
}

/// The text shown for a parent hash: its hex, or a note for the genesis block.
pub fn previous_hash_label(previous: &Option<Hash256>) -> (text: String)
    ensures
        text@ == match previous {
            Some(h) => hex_text(h@),
            None => "None (Genesis Block)"@,
        },
{
    match previous {
        Some(h) => hex_string(h.0.as_slice()),
        None => {
            let mut text = String::new();
            text.append("None (Genesis Block)");
            assert(text@ =~= "None (Genesis Block)"@);
            text
        },
    }
}

/// Reads `bytes` as UTF-8 with `std::str::from_utf8`. Trusted: the text is
/// there exactly when the bytes are valid UTF-8, and it is their decoding.
#[verifier::external_body]
fn utf8_text(bytes: &[u8]) -> (text: Option<String>)
    ensures
        text is Some <==> vstd::utf8::valid_utf8(bytes@),
        text matches Some(t) ==> t@ == vstd::utf8::decode_utf8(bytes@),
{
    match std::str::from_utf8(bytes) {
        Ok(s) => Some(s.to_string()),
        Err(_) => None,
    }
}

/// A transaction message as the details panel shows it: its text when it is
/// UTF-8, else `0x` and its hex.
pub fn message_label(message: &[u8]) -> (text: String)
    ensures
        text@ == if vstd::utf8::valid_utf8(message@) {
            vstd::utf8::decode_utf8(message@)
        } else {
            "0x"@ + hex_text(message@)
        },
{
    match utf8_text(message) {
        Some(text) => text,
        None => {
            let mut text = String::new();
            text.append("0x");
            let hex = hex_string(message);
            text.append(hex.as_str());
            text
        },
    }
}

/// The recipient as the details panel shows it: its hex, or a note for a
/// message-only transaction.
pub fn recipient_label(to: &Option<Address>) -> (text: String)
    ensures
        text@ == match to {
            Some(a) => hex_text(a.0@),
            None => "N/A (Message-only transaction)"@,
        },
{
    match to {
        Some(a) => hex_string(a.0.as_slice()),
        None => {
            let mut text = String::new();
            text.append("N/A (Message-only transaction)");
            assert(text@ =~= "N/A (Message-only transaction)"@);
            text
        },
    }
}

/// The size as the details panel shows it: `<size> bytes`.
pub fn size_label(size: usize) -> (text: String)
    ensures
        text@ == decimal(size as nat) + " bytes"@,
{
    let mut text = String::new();
    push_decimal(&mut text, size as u64);
    text.append(" bytes");
    assert(text@ =~= decimal(size as nat) + " bytes"@);
    text
}

/// A transaction id as a list row shows it: the first 16 bytes and an
/// ellipsis when it is longer, else the whole id.
pub fn short_txid(txid: &String) -> (text: String)
    requires
        vstd::utf8::encode_utf8(txid@).len() <= usize::MAX,
        vstd::utf8::encode_utf8(txid@).len() > 16 ==> vstd::utf8::is_char_boundary(
            vstd::utf8::encode_utf8(txid@),
            16,
        ),
    ensures
        vstd::utf8::encode_utf8(txid@).len() > 16 ==> text@ == vstd::utf8::decode_utf8(
            vstd::utf8::encode_utf8(txid@).take(16),
        ) + "..."@,
        vstd::utf8::encode_utf8(txid@).len() <= 16 ==> text@ == txid@,
{
    let s: &str = txid.as_str();
    if s.len() > 16 {
        let (head, _tail) = s.split_at(16);
        proof {
            vstd::utf8::encode_utf8_decode_utf8(head@);
            assert(s@ == txid@);
            assert(s.spec_bytes() == vstd::utf8::encode_utf8(txid@));
            assert(head.spec_bytes() =~= s.spec_bytes().subrange(0, 16));
            assert(s.spec_bytes().subrange(0, 16) =~= s.spec_bytes().take(16));
            assert(head.spec_bytes() == vstd::utf8::encode_utf8(head@));
            assert(head@ == vstd::utf8::decode_utf8(vstd::utf8::encode_utf8(txid@).take(16)));
        }
        let mut text = head.to_owned();
        text.append("...");
        text
    } else {
        txid.clone()
    }
}

/// Where block `height` sits in the explorer's grid: rows of ten, with every
/// other row running right to left. Returns (row, column).
pub fn block_grid_cell(height: usize) -> (cell: (usize, usize))
    ensures
        cell.0 == height / 10,
        cell.1 == if (height / 10) % 2 == 1 {
            9 - height % 10
        } else {
            (height % 10) as int
        },
{
    let row = height / BLOCKS_PER_ROW;
    let col = height % BLOCKS_PER_ROW;
    let x_col = if row % 2 == 1 {
        9 - col
    } else {
        col
    };
    (row, x_col)
}

/// How the arrow from a block to the next one is drawn.
#[derive(Clone, Copy, Debug, PartialEq, Eq)]
pub enum Arrow {
    /// Along the row; `reversed` when the row runs right to left.
    Horizontal { reversed: bool },
    /// Down to the next row.
    Wrap,
}

/// The arrow from block `height` to block `height + 1`.
pub fn arrow_to_next(height: usize) -> (arrow: Arrow)
    requires
        height < usize::MAX,
    ensures
        arrow == if height / 10 == (height + 1) / 10 {
            Arrow::Horizontal { reversed: (height / 10) % 2 == 1 }
        } else {
            Arrow::Wrap
        },
{
    let current_row = height / BLOCKS_PER_ROW;
    let next_row = (height + 1) / BLOCKS_PER_ROW;
    if current_row == next_row {
        Arrow::Horizontal { reversed: current_row % 2 == 1 }
    } else {
        Arrow::Wrap
    }
}

/// What the explorer has selected: a block, and a transaction given by
/// (block index, transaction index).
#[derive(Clone, Copy, Debug, PartialEq, Eq)]
pub struct Selection {
    pub selected_block: Option<usize>,
    pub selected_transaction: Option<(usize, usize)>,
}

impl Selection {
    /// The selection points into `blocks`: a selected block exists, and a
    /// selected transaction belongs to the selected block and is in range.
    pub open spec fn points_into(self, blocks: Seq<Block>) -> bool {
        &&& match self.selected_block {
            Some(b) => b < blocks.len(),
            None => true,
        }
        &&& match self.selected_transaction {
            Some((b, t)) => self.selected_block == Some(b) && b < blocks.len() && t
                < blocks[b as int].transactions@.len(),
            None => true,
        }
    }

    /// Nothing selected.
    pub fn new() -> (selection: Self)
        ensures
            selection.selected_block is None,
            selection.selected_transaction is None,
    {
        Selection { selected_block: None, selected_transaction: None }
    }

    /// A click on block `height` of `blocks`: selects it, or deselects it when
    /// it was selected; either way no transaction stays selected.
    pub fn click_block(&mut self, height: usize, blocks: &[Block])
        requires
            height < blocks@.len(),
        ensures
            final(self).selected_block == if old(self).selected_block == Some(height) {
                None::<usize>
            } else {
                Some(height)
            },
            final(self).selected_transaction is None,
            final(self).points_into(blocks@),
    {
        let same = match self.selected_block {
            Some(h) => h == height,
            None => false,
        };
        if same {
            self.selected_block = None;
        } else {
            self.selected_block = Some(height);
        }
        self.selected_transaction = None;
    }

    /// Closing the block panel deselects the block and its transaction.
    pub fn close_block(&mut self)
        ensures
            final(self).selected_block is None,
            final(self).selected_transaction is None,
    {
        self.selected_block = None;
        self.selected_transaction = None;
    }

    /// Closing the transaction panel deselects the transaction only.
    pub fn close_transaction(&mut self)
        ensures
            final(self).selected_block == old(self).selected_block,
            final(self).selected_transaction is None,
    {
        self.selected_transaction = None;
    }

    /// Opening transaction `tx_index` of the selected block of `blocks`;
    /// nothing changes when no block is selected.
    pub fn open_transaction(&mut self, tx_index: usize, blocks: &[Block])
        requires
            match old(self).selected_block {
                Some(b) => b < blocks@.len() && tx_index < blocks@[b as int].transactions@.len(),
                None => true,
            },
        ensures
            final(self).selected_block == old(self).selected_block,
            final(self).selected_transaction == match old(self).selected_block {
                Some(b) => Some((b, tx_index)),
                None => old(self).selected_transaction,
            },
            old(self).points_into(blocks@) ==> final(self).points_into(blocks@),
    {
        if let Some(block_idx) = self.selected_block {
            self.selected_transaction = Some((block_idx, tx_index));
        }
    }
}

/// Nothing selected points into any chain; closing panels keeps a selection
/// pointing into its chain; and a selection that points into some blocks
/// still does once more blocks arrive.
pub proof fn lemma_selection_stays_in_range(
    selection: Selection,
    blocks: Seq<Block>,
    more: Seq<Block>,
)
    ensures
        (Selection { selected_block: None, selected_transaction: None }).points_into(blocks),
        selection.points_into(blocks) ==> (Selection {
            selected_transaction: None,
            ..selection
        }).points_into(blocks),
        selection.points_into(blocks) ==> selection.points_into(blocks + more),
{
    if selection.points_into(blocks) {
        match selection.selected_transaction {
            Some((b, t)) => {
                assert((blocks + more)[b as int] == blocks[b as int]);
            },
            None => {},
        }
    }
}

} // verus!
