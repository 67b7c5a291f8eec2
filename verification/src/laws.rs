//! The laws of the layout engine, stated and proved over the operation
//! sequences that the traversal emits: row bands, column placement,
//! determinism, and row heights.

use vstd::prelude::*;
use vstd::arithmetic::div_mod::lemma_mod_multiples_basic;
use vstd::utf8::{
    encode_utf8, encode_scalar, char_is_scalar, char_u32_cast, has_width_1_encoding,
    has_width_2_encoding, has_width_3_encoding, leading_byte_width_1, leading_byte_width_2,
    leading_byte_width_3, leading_byte_width_4, last_continuation_byte,
    second_last_continuation_byte, third_last_continuation_byte,
};
use crate::doc::{Node, wf, root_free, MAX_BLOCKS, MAX_INLINE, MAX_TEXT_BYTES};
use crate::format::FormatSpec;
use crate::layout::{
    count_newlines, text_row_height, ops_spec, root_children_ops, para_children_ops,
    sheet_ops_spec, preset_rows_spec, children_of, MAX_COLUMN,
};
use crate::ops::{OpSpec, op_row, op_col, op_height};

verus! {

/// A text never holds more newline bytes than bytes.
pub proof fn lemma_count_newlines_le(b: Seq<u8>)
    ensures
        count_newlines(b) <= b.len(),
    decreases b.len(),
{
    if b.len() > 0 {
        lemma_count_newlines_le(b.drop_last());
    }
}

/// How many newline characters a text holds.
pub open spec fn count_newline_chars(s: Seq<char>) -> nat
    decreases s.len(),
{
    if s.len() == 0 {
        0
    } else {
        count_newline_chars(s.drop_first()) + if s.first() == '\n' {
            1nat
        } else {
            0nat
        }
    }
}

/// The number of newline-separated lines of a text: its newline count
/// plus one.
pub open spec fn line_count(text: Seq<char>) -> nat {
    count_newline_chars(text) + 1
}

/// Newline counting distributes over concatenation.
proof fn lemma_count_newlines_add(a: Seq<u8>, b: Seq<u8>)
    ensures
        count_newlines(a + b) == count_newlines(a) + count_newlines(b),
    decreases b.len(),
{
    if b.len() == 0 {
        assert(a + b =~= a);
    } else {
        lemma_count_newlines_add(a, b.drop_last());
        assert((a + b).drop_last() =~= a + b.drop_last());
        assert((a + b).last() == b.last());
    }
}

/// The UTF-8 encoding of one character holds the byte 10 exactly when the
/// character is a newline: a one-byte encoding is the scalar itself, and
/// every byte of a longer encoding has its high bit set.
proof fn lemma_encode_scalar_newlines(c: char)
    ensures
        count_newlines(encode_scalar(c as u32)) == if c == '\n' {
            1nat
        } else {
            0nat
        },
{
    reveal_with_fuel(count_newlines, 6);
    char_is_scalar(c);
    let s = c as u32;
    assert(('\n' as u32) == 10);
    if c == '\n' {
        assert(s == 10);
    } else {
        char_u32_cast(c, s);
        char_u32_cast('\n', '\n' as u32);
        assert(s != 10);
    }
    assert(forall|y: u8| (0x80u8 | y) != 10u8) by (bit_vector);
    assert(forall|y: u8| (0xC0u8 | y) != 10u8) by (bit_vector);
    assert(forall|y: u8| (0xE0u8 | y) != 10u8) by (bit_vector);
    assert(forall|y: u8| (0xF0u8 | y) != 10u8) by (bit_vector);
    if has_width_1_encoding(s) {
        let b = leading_byte_width_1(s);
        assert(s <= 0x7F ==> (((s & 0x7F) as u8) == 10u8 <==> s == 10u32)) by (bit_vector);
        let e = encode_scalar(s);
        assert(e =~= seq![b]);
        assert(e.drop_last() =~= Seq::<u8>::empty());
        assert(count_newlines(e) == if b == 10u8 {
            1nat
        } else {
            0nat
        });
    } else if has_width_2_encoding(s) {
        let e = encode_scalar(s);
        assert(e =~= seq![leading_byte_width_2(s), last_continuation_byte(s)]);
        assert(e.drop_last() =~= seq![leading_byte_width_2(s)]);
        assert(e.drop_last().drop_last() =~= Seq::<u8>::empty());
        assert(count_newlines(e) == 0);
    } else if has_width_3_encoding(s) {
        let e = encode_scalar(s);
        assert(e =~= seq![
            leading_byte_width_3(s),
            second_last_continuation_byte(s),
            last_continuation_byte(s),
        ]);
        assert(e.drop_last() =~= seq![leading_byte_width_3(s), second_last_continuation_byte(s)]);
        assert(e.drop_last().drop_last() =~= seq![leading_byte_width_3(s)]);
        assert(e.drop_last().drop_last().drop_last() =~= Seq::<u8>::empty());
        assert(count_newlines(e) == 0);
    } else {
        let e = encode_scalar(s);
        assert(e =~= seq![
            leading_byte_width_4(s),
            third_last_continuation_byte(s),
            second_last_continuation_byte(s),
            last_continuation_byte(s),
        ]);
        assert(e.drop_last() =~= seq![
            leading_byte_width_4(s),
            third_last_continuation_byte(s),
            second_last_continuation_byte(s),
        ]);
        assert(e.drop_last().drop_last() =~= seq![
            leading_byte_width_4(s),
            third_last_continuation_byte(s),
        ]);
        assert(e.drop_last().drop_last().drop_last() =~= seq![leading_byte_width_4(s)]);
        assert(e.drop_last().drop_last().drop_last().drop_last() =~= Seq::<u8>::empty());
        assert(count_newlines(e) == 0);
    }
}

/// Law: counting newline bytes of the UTF-8 encoding counts exactly the
/// newline characters of the text, so the row-height formula speaks of
/// newline-separated lines of the decoded text.
pub proof fn lemma_newlines_chars_bytes(s: Seq<char>)
    ensures
        count_newlines(encode_utf8(s)) == count_newline_chars(s),
    decreases s.len(),
{
    if s.len() > 0 {
        lemma_encode_scalar_newlines(s[0]);
        lemma_newlines_chars_bytes(s.drop_first());
        lemma_count_newlines_add(encode_scalar(s[0] as u32), encode_utf8(s.drop_first()));
    }
}

/// Law: a written text with L newline-separated lines forces its row to
/// height exactly 28 + 8 * (L - 1).
pub proof fn lemma_text_height_formula(text: Seq<char>)
    requires
        encode_utf8(text).len() <= MAX_TEXT_BYTES,
    ensures
        text_row_height(text) == 28 + 8 * (line_count(text) - 1),
{
    lemma_newlines_chars_bytes(text);
    lemma_count_newlines_le(encode_utf8(text));
}

/// Every operation a root-free node emits stays on the row it was rendered
/// at: the traversal threads the row through unchanged below the root.
pub proof fn lemma_ops_rows_confined(n: Node, x: u16, y: u32, f: Option<FormatSpec>)
    requires
        root_free(n),
    ensures
        forall|j: int|
            0 <= j < ops_spec(n, x, y, f).len() ==> op_row(#[trigger] ops_spec(n, x, y, f)[j])
                == y,
    decreases n, 0int,
{
    match n {
        Node::Paragraph { children } => {
            lemma_para_rows_confined(children@, 0, y, f);
            assert(ops_spec(n, x, y, f) == para_children_ops(children@, 0, y, f));
            assert forall|j: int| 0 <= j < ops_spec(n, x, y, f).len() implies op_row(
                #[trigger] ops_spec(n, x, y, f)[j],
            ) == y by {
                assert(op_row(para_children_ops(children@, 0, y, f)[j]) == y);
            }
        },
        Node::Heading { depth, children } => {
            if children@.len() > 0 {
                lemma_ops_rows_confined(
                    children@[0],
                    0,
                    y,
                    Some(crate::format::heading_format(depth)),
                );
                assert(ops_spec(n, x, y, f) == ops_spec(
                    children@[0],
                    0,
                    y,
                    Some(crate::format::heading_format(depth)),
                ));
            }
        },
        Node::Emphasis { children } => {
            if children@.len() > 0 {
                lemma_ops_rows_confined(children@[0], x, y, Some(crate::format::bold_format()));
                assert(ops_spec(n, x, y, f) == ops_spec(
                    children@[0],
                    x,
                    y,
                    Some(crate::format::bold_format()),
                ));
            }
        },
        Node::BlockQuote { children } => {
            if children@.len() > 0 {
                lemma_ops_rows_confined(
                    children@[0],
                    0,
                    y,
                    Some(crate::format::quotation_format()),
                );
                assert(ops_spec(n, x, y, f) == ops_spec(
                    children@[0],
                    0,
                    y,
                    Some(crate::format::quotation_format()),
                ));
            }
        },
        Node::Text { .. } => {
            assert(op_row(ops_spec(n, x, y, f)[0]) == y);
            assert(op_row(ops_spec(n, x, y, f)[1]) == y);
            assert(ops_spec(n, x, y, f).len() == 2);
        },
        Node::Code { .. } => {
            assert(op_row(ops_spec(n, x, y, f)[0]) == y);
            assert(op_row(ops_spec(n, x, y, f)[1]) == y);
            assert(ops_spec(n, x, y, f).len() == 2);
        },
        Node::InlineCode { .. } => {
            assert(op_row(ops_spec(n, x, y, f)[0]) == y);
            assert(op_row(ops_spec(n, x, y, f)[1]) == y);
            assert(ops_spec(n, x, y, f).len() == 2);
        },
        Node::Image { .. } => {
            assert(op_row(ops_spec(n, x, y, f)[0]) == y);
            assert(op_row(ops_spec(n, x, y, f)[1]) == y);
            assert(ops_spec(n, x, y, f).len() == 2);
        },
        _ => {},
    }
}

/// Row confinement for the tail of a paragraph's child list.
proof fn lemma_para_rows_confined(cs: Seq<Node>, k: int, y: u32, f: Option<FormatSpec>)
    requires
        forall|i: int| 0 <= i < cs.len() ==> root_free(#[trigger] cs[i]),
    ensures
        forall|j: int|
            0 <= j < para_children_ops(cs, k, y, f).len() ==> op_row(
                #[trigger] para_children_ops(cs, k, y, f)[j],
            ) == y,
    decreases cs, cs.len() - k,
{
    if 0 <= k < cs.len() {
        lemma_ops_rows_confined(cs[k], (2 * k) as u16, y, f);
        lemma_para_rows_confined(cs, k + 1, y, f);
        let seg = ops_spec(cs[k], (2 * k) as u16, y, f);
        let rest = para_children_ops(cs, k + 1, y, f);
        assert forall|j: int| 0 <= j < para_children_ops(cs, k, y, f).len() implies op_row(
            #[trigger] para_children_ops(cs, k, y, f)[j],
        ) == y by {
            if j < seg.len() {
                assert(para_children_ops(cs, k, y, f)[j] == seg[j]);
            } else {
                assert(para_children_ops(cs, k, y, f)[j] == rest[j - seg.len()]);
            }
        }
    }
}

/// Law: each top-level block owns one row band. Every operation emitted for
/// the block at index `i` of the root's child list lands exactly on row
/// `3 + i` — one block per row, in document order. (A parser never nests a
/// root inside another node, so the children of a parsed root are
/// root-free.)
pub proof fn lemma_block_owns_row(cs: Seq<Node>, i: int, j: int)
    requires
        0 <= i < cs.len(),
        cs.len() <= MAX_BLOCKS,
        root_free(cs[i]),
        0 <= j < ops_spec(cs[i], 0, (3 + i) as u32, None).len(),
    ensures
        op_row(ops_spec(cs[i], 0, (3 + i) as u32, None)[j]) == 3 + i,
{
    lemma_ops_rows_confined(cs[i], 0, (3 + i) as u32, None);
}

/// Law: the whole output of a root lies in rows 3 to 3 + N - 1, where N is
/// the number of top-level blocks.
pub proof fn lemma_root_rows_in_band(cs: Seq<Node>, k: int)
    requires
        0 <= k,
        cs.len() <= MAX_BLOCKS,
        forall|i: int| 0 <= i < cs.len() ==> root_free(#[trigger] cs[i]),
    ensures
        forall|j: int|
            0 <= j < root_children_ops(cs, k).len() ==> 3 + k <= op_row(
                #[trigger] root_children_ops(cs, k)[j],
            ) < 3 + cs.len(),
    decreases cs.len() - k,
{
    if k < cs.len() {
        lemma_ops_rows_confined(cs[k], 0, (3 + k) as u32, None);
        lemma_root_rows_in_band(cs, k + 1);
        let seg = ops_spec(cs[k], 0, (3 + k) as u32, None);
        let rest = root_children_ops(cs, k + 1);
        assert forall|j: int| 0 <= j < root_children_ops(cs, k).len() implies 3 + k <= op_row(
            #[trigger] root_children_ops(cs, k)[j],
        ) < 3 + cs.len() by {
            if j < seg.len() {
                assert(root_children_ops(cs, k)[j] == seg[j]);
                assert(op_row(seg[j]) == (3 + k) as u32);
            } else {
                assert(root_children_ops(cs, k)[j] == rest[j - seg.len()]);
            }
        }
    }
}

/// Whether a node writes all its text at the column it is rendered at:
/// plain text, inline code, and emphasis wrapped around such a node. These
/// are the inline nodes whose column a paragraph determines.
pub open spec fn keeps_column(n: Node) -> bool
    decreases n,
{
    match n {
        Node::Text { .. } => true,
        Node::InlineCode { .. } => true,
        Node::Emphasis { children } => children@.len() == 0 || keeps_column(children@[0]),
        _ => false,
    }
}

/// Every text a column-keeping node writes starts at the base offset 6 plus
/// the column it is rendered at.
pub proof fn lemma_inline_write_columns(n: Node, x: u16, y: u32, f: Option<FormatSpec>)
    requires
        keeps_column(n),
        x <= MAX_COLUMN,
    ensures
        forall|j: int|
            0 <= j < ops_spec(n, x, y, f).len() && ops_spec(n, x, y, f)[j] is WriteText
                ==> op_col(#[trigger] ops_spec(n, x, y, f)[j]) == 6 + x,
    decreases n,
{
    match n {
        Node::Emphasis { children } => {
            if children@.len() > 0 {
                lemma_inline_write_columns(children@[0], x, y, Some(crate::format::bold_format()));
            }
        },
        _ => {},
    }
}

/// Law: the k-th inline child of a paragraph (0-indexed) is written
/// starting at column 6 + 2k — the fixed base offset of 6 plus the
/// paragraph's per-child column step of 2.
pub proof fn lemma_paragraph_columns(cs: Seq<Node>, k: int, y: u32, f: Option<FormatSpec>, j: int)
    requires
        0 <= k < cs.len(),
        cs.len() <= MAX_INLINE,
        keeps_column(cs[k]),
        0 <= j < ops_spec(cs[k], (2 * k) as u16, y, f).len(),
        ops_spec(cs[k], (2 * k) as u16, y, f)[j] is WriteText,
    ensures
        op_col(ops_spec(cs[k], (2 * k) as u16, y, f)[j]) == 6 + 2 * k,
{
    lemma_inline_write_columns(cs[k], (2 * k) as u16, y, f);
}

/// Law: conversion is deterministic. Equal documents produce the same
/// operation sequence — no randomness and no timestamps affect cell
/// placement, so converting the same document twice yields byte-identical
/// layout.
pub proof fn lemma_layout_deterministic(d1: Node, d2: Node)
    requires
        d1 == d2,
    ensures
        sheet_ops_spec(d1) == sheet_ops_spec(d2),
{
}

/// Law: every row height the traversal of a well-formed node emits is at
/// least 28, and is either a text height 28 + 8 * newlines or the fixed
/// image height 230.
pub proof fn lemma_row_heights(n: Node, x: u16, y: u32, f: Option<FormatSpec>)
    requires
        wf(n),
    ensures
        forall|j: int|
            0 <= j < ops_spec(n, x, y, f).len() && ops_spec(n, x, y, f)[j] is SetRowHeight ==> {
                let h = op_height(#[trigger] ops_spec(n, x, y, f)[j]);
                &&& h >= 28
                &&& ((h - 28) % 8 == 0 || h == 230)
            },
    decreases n, 0int,
{
    match n {
        Node::Root { children } => {
            lemma_root_heights(children@, 0);
        },
        Node::Paragraph { children } => {
            lemma_para_heights(children@, 0, y, f);
        },
        Node::Heading { depth, children } => {
            if children@.len() > 0 {
                lemma_row_heights(children@[0], 0, y, Some(crate::format::heading_format(depth)));
            }
        },
        Node::Text { value } => {
            lemma_text_height_bounds(value@);
        },
        Node::Code { value } => {
            lemma_text_height_bounds(value@);
        },
        Node::Emphasis { children } => {
            if children@.len() > 0 {
                lemma_row_heights(children@[0], x, y, Some(crate::format::bold_format()));
            }
        },
        Node::InlineCode { value } => {
            lemma_text_height_bounds(value@);
        },
        Node::BlockQuote { children } => {
            if children@.len() > 0 {
                lemma_row_heights(children@[0], 0, y, Some(crate::format::quotation_format()));
            }
        },
        _ => {},
    }
}

/// The text-height formula yields a height of at least 28 that is 28 plus a
/// multiple of 8.
proof fn lemma_text_height_bounds(text: Seq<char>)
    requires
        encode_utf8(text).len() <= MAX_TEXT_BYTES,
    ensures
        text_row_height(text) >= 28,
        (text_row_height(text) - 28) % 8 == 0,
{
    lemma_count_newlines_le(encode_utf8(text));
    let c = count_newlines(encode_utf8(text)) as int;
    lemma_mod_multiples_basic(c, 8);
}

/// Height bounds for the tail of a root's child list.
proof fn lemma_root_heights(cs: Seq<Node>, k: int)
    requires
        forall|i: int| 0 <= i < cs.len() ==> wf(#[trigger] cs[i]),
    ensures
        forall|j: int|
            0 <= j < root_children_ops(cs, k).len() && root_children_ops(cs, k)[j]
                is SetRowHeight ==> {
                let h = op_height(#[trigger] root_children_ops(cs, k)[j]);
                &&& h >= 28
                &&& ((h - 28) % 8 == 0 || h == 230)
            },
    decreases cs, cs.len() - k,
{
    if 0 <= k < cs.len() {
        lemma_row_heights(cs[k], 0, (3 + k) as u32, None);
        lemma_root_heights(cs, k + 1);
    }
}

/// Height bounds for the tail of a paragraph's child list.
proof fn lemma_para_heights(cs: Seq<Node>, k: int, y: u32, f: Option<FormatSpec>)
    requires
        forall|i: int| 0 <= i < cs.len() ==> wf(#[trigger] cs[i]),
    ensures
        forall|j: int|
            0 <= j < para_children_ops(cs, k, y, f).len() && para_children_ops(cs, k, y, f)[j]
                is SetRowHeight ==> {
                let h = op_height(#[trigger] para_children_ops(cs, k, y, f)[j]);
                &&& h >= 28
                &&& ((h - 28) % 8 == 0 || h == 230)
            },
    decreases cs, cs.len() - k,
{
    if 0 <= k < cs.len() {
        lemma_row_heights(cs[k], (2 * k) as u16, y, f);
        lemma_para_heights(cs, k + 1, y, f);
    }
}

/// Law: every row height in a whole document's output — the uniform preset
/// of 28 included — is at least 28, and each is a text height or the fixed
/// image height 230.
pub proof fn lemma_sheet_row_heights(doc: Node, j: int)
    requires
        wf(doc),
        doc is Root,
        0 <= j < sheet_ops_spec(doc).len(),
        sheet_ops_spec(doc)[j] is SetRowHeight,
    ensures
        op_height(sheet_ops_spec(doc)[j]) >= 28,
        (op_height(sheet_ops_spec(doc)[j]) - 28) % 8 == 0 || op_height(sheet_ops_spec(doc)[j])
            == 230,
{
    let head = seq![
        OpSpec::SetColumnWidth { first_col: 0u16, last_col: 100u16, width: 3u32 },
    ];
    let presets = preset_rows_spec(children_of(doc).len());
    let body = ops_spec(doc, 0, 0, None);
    lemma_row_heights(doc, 0, 0, None);
    if j < head.len() + presets.len() {
        if j >= head.len() {
            assert(sheet_ops_spec(doc)[j] == presets[j - 1]);
            assert(op_height(presets[j - 1]) == 28);
        }
    } else {
        assert(sheet_ops_spec(doc)[j] == body[j - head.len() - presets.len()]);
    }
}

/// Law: an image row is always exactly height 230. Every embedding
/// operation is immediately preceded by its row being forced to height 230.
pub proof fn lemma_image_rows(n: Node, x: u16, y: u32, f: Option<FormatSpec>, j: int)
    requires
        0 <= j < ops_spec(n, x, y, f).len(),
        ops_spec(n, x, y, f)[j] is EmbedImage,
    ensures
        j > 0,
        ops_spec(n, x, y, f)[j - 1] == (OpSpec::SetRowHeight {
            row: op_row(ops_spec(n, x, y, f)[j]),
            height: 230u64,
        }),
    decreases n, 0int,
{
    match n {
        Node::Root { children } => {
            lemma_root_image_rows(children@, 0, j);
        },
        Node::Paragraph { children } => {
            lemma_para_image_rows(children@, 0, y, f, j);
        },
        Node::Heading { depth, children } => {
            lemma_image_rows(children@[0], 0, y, Some(crate::format::heading_format(depth)), j);
        },
        Node::Emphasis { children } => {
            lemma_image_rows(children@[0], x, y, Some(crate::format::bold_format()), j);
        },
        Node::BlockQuote { children } => {
            lemma_image_rows(children@[0], 0, y, Some(crate::format::quotation_format()), j);
        },
        _ => {},
    }
}

/// Image-row pairing for the tail of a root's child list.
proof fn lemma_root_image_rows(cs: Seq<Node>, k: int, j: int)
    requires
        0 <= j < root_children_ops(cs, k).len(),
        root_children_ops(cs, k)[j] is EmbedImage,
    ensures
        j > 0,
        root_children_ops(cs, k)[j - 1] == (OpSpec::SetRowHeight {
            row: op_row(root_children_ops(cs, k)[j]),
            height: 230u64,
        }),
    decreases cs, cs.len() - k,
{
    let seg = ops_spec(cs[k], 0, (3 + k) as u32, None);
    if j < seg.len() {
        lemma_image_rows(cs[k], 0, (3 + k) as u32, None, j);
    } else {
        lemma_root_image_rows(cs, k + 1, j - seg.len());
    }
}

/// Image-row pairing for the tail of a paragraph's child list.
proof fn lemma_para_image_rows(cs: Seq<Node>, k: int, y: u32, f: Option<FormatSpec>, j: int)
    requires
        0 <= j < para_children_ops(cs, k, y, f).len(),
        para_children_ops(cs, k, y, f)[j] is EmbedImage,
    ensures
        j > 0,
        para_children_ops(cs, k, y, f)[j - 1] == (OpSpec::SetRowHeight {
            row: op_row(para_children_ops(cs, k, y, f)[j]),
            height: 230u64,
        }),
    decreases cs, cs.len() - k,
{
    let seg = ops_spec(cs[k], (2 * k) as u16, y, f);
    if j < seg.len() {
        lemma_image_rows(cs[k], (2 * k) as u16, y, f, j);
    } else {
        lemma_para_image_rows(cs, k + 1, y, f, j - seg.len());
    }
}

} // verus!
