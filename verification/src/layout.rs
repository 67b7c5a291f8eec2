//! The layout engine: a single depth-first, pre-order walk of the document
//! tree that maps each node to writer operations with explicit coordinates
//! and format presets.
//!
//! The traversal rules, per node variant:
//! - `Root`: child `i` is rendered at column 0, row `3 + i` (rows 0 to 2 are
//!   reserved header rows), with no inherited format.
//! - `Paragraph`: child `k` is rendered at column `2 * k`, same row,
//!   inheriting the paragraph's format.
//! - `Heading`: only the first child is rendered, at column 0, same row, with
//!   the preset chosen by depth; an empty heading renders nothing.
//! - `Text`: writes its value at the given position with the inherited format.
//! - `Code`: writes its value at column 0 with the code-block preset.
//! - `Emphasis`: only the first child, same position, bold preset.
//! - `InlineCode`: writes its value with the inline-code preset.
//! - `BlockQuote`: only the first child, column 0, quotation preset.
//! - `Image`: forces the row to height 230 and embeds the image at column 6.
//! - `Other`: renders nothing.
//!
//! Every written text cell is preceded by a row-height recalculation:
//! height `28 + 8 * newlines`, so multi-line text never truncates. Terminal
//! writes add the fixed base offset of 6 to their column.

use vstd::prelude::*;
use vstd::utf8::encode_utf8;
use crate::doc::{Node, wf, MAX_BLOCKS, MAX_INLINE, MAX_TEXT_BYTES};
use crate::format::{
    FormatSpec, heading_format, bold_format, inline_format, quotation_format, code_format,
    create_h1_format, create_h2_format, create_h3_format, create_bold_format,
    create_inline_format, create_quotation_format, create_code_format,
};
use crate::ops::{Op, OpSpec, views};

verus! {

/// The largest column argument a terminal write accepts: the fixed base
/// offset of 6 must still fit the 16-bit column type.
pub const MAX_COLUMN: u16 = 65529;

/// How many newline bytes a UTF-8 encoded text holds. A newline is the one
/// code point whose encoding is the byte 10, so this equals the number of
/// newline characters in the decoded text.
pub open spec fn count_newlines(b: Seq<u8>) -> nat
    decreases b.len(),
{
    if b.len() == 0 {
        0
    } else {
        count_newlines(b.drop_last()) + if b.last() == 10u8 {
            1nat
        } else {
            0nat
        }
    }
}

/// The height given to a row that holds this text: 28 for a single line,
/// plus 8 for every further newline-separated line.
pub open spec fn text_row_height(text: Seq<char>) -> u64 {
    (28 + 8 * count_newlines(encode_utf8(text))) as u64
}

/// The two operations a text write issues: the row-height recalculation,
/// then the write itself at the base offset 6 plus the given column.
pub open spec fn text_ops_spec(text: Seq<char>, x: u16, y: u32, format: Option<FormatSpec>)
    -> Seq<OpSpec> {
    seq![
        OpSpec::SetRowHeight { row: y, height: text_row_height(text) },
        OpSpec::WriteText { row: y, col: (6 + x) as u16, text: text, format: format },
    ]
}

/// The two operations an image node issues: the fixed row height 230, then
/// the embedding request at the fixed column 6.
pub open spec fn image_ops_spec(path: Seq<char>, y: u32) -> Seq<OpSpec> {
    seq![
        OpSpec::SetRowHeight { row: y, height: 230u64 },
        OpSpec::EmbedImage { row: y, col: 6u16, path: path },
    ]
}

/// The operations the layout engine issues for one node rendered at column
/// `x`, row `y`, with inherited format `f`.
pub open spec fn ops_spec(n: Node, x: u16, y: u32, f: Option<FormatSpec>) -> Seq<OpSpec>
    decreases n, 0int,
{
    match n {
        Node::Root { children } => root_children_ops(children@, 0),
        Node::Paragraph { children } => para_children_ops(children@, 0, y, f),
        Node::Heading { depth, children } => if children@.len() == 0 {
            Seq::empty()
        } else {
            ops_spec(children@[0], 0, y, Some(heading_format(depth)))
        },
        Node::Text { value } => text_ops_spec(value@, x, y, f),
        Node::Code { value } => text_ops_spec(value@, 0, y, Some(code_format())),
        Node::Emphasis { children } => if children@.len() == 0 {
            Seq::empty()
        } else {
            ops_spec(children@[0], x, y, Some(bold_format()))
        },
        Node::InlineCode { value } => text_ops_spec(value@, x, y, Some(inline_format())),
        Node::BlockQuote { children } => if children@.len() == 0 {
            Seq::empty()
        } else {
            ops_spec(children@[0], 0, y, Some(quotation_format()))
        },
        Node::Image { url } => image_ops_spec(url@, y),
        Node::Other => Seq::empty(),
    }
}

/// The operations of the top-level blocks from index `k` on: block `k` is
/// rendered at column 0, row `3 + k`, with no inherited format.
pub open spec fn root_children_ops(cs: Seq<Node>, k: int) -> Seq<OpSpec>
    decreases cs, cs.len() - k,
{
    if k < 0 || k >= cs.len() {
        Seq::empty()
    } else {
        ops_spec(cs[k], 0, (3 + k) as u32, None) + root_children_ops(cs, k + 1)
    }
}

/// The operations of a paragraph's inline children from index `k` on: child
/// `k` is rendered at column `2 * k`, same row, inheriting the format.
pub open spec fn para_children_ops(cs: Seq<Node>, k: int, y: u32, f: Option<FormatSpec>)
    -> Seq<OpSpec>
    decreases cs, cs.len() - k,
{
    if k < 0 || k >= cs.len() {
        Seq::empty()
    } else {
        ops_spec(cs[k], (2 * k) as u16, y, f) + para_children_ops(cs, k + 1, y, f)
    }
}

/// Element views distribute over concatenation of operation lists.
proof fn lemma_views_add(a: Seq<Op>, b: Seq<Op>)
    ensures
        views(a + b) == views(a) + views(b),
{
    assert(views(a + b) =~= views(a) + views(b));
}

/// Counts the newline bytes of a UTF-8 text, for the row-height formula.
fn count_newline_bytes(bytes: &[u8]) -> (count: usize)
    ensures
        count == count_newlines(bytes@),
        count <= bytes@.len(),
{
    let mut count: usize = 0;
    let mut i: usize = 0;
    while i < bytes.len()
        invariant
            0 <= i <= bytes@.len(),
            count == count_newlines(bytes@.take(i as int)),
            count <= i,
        decreases bytes@.len() - i,
    {
        proof {
            assert(bytes@.take(i as int + 1).drop_last() =~= bytes@.take(i as int));
            assert(bytes@.take(i as int + 1).last() == bytes@[i as int]);
        }
        if bytes[i] == 10u8 {
            count = count + 1;
        }
        i = i + 1;
    }
    proof {
        assert(bytes@.take(bytes@.len() as int) =~= bytes@);
    }
    count
}

/// Writes one text value: recalculates the row height from its newline
/// count, then writes the text at the base offset 6 plus the given column.
pub fn write_string(text: &String, x: u16, y: u32, format: Option<FormatSpec>) -> (r: Vec<Op>)
    requires
        x <= MAX_COLUMN,
        encode_utf8(text@).len() <= MAX_TEXT_BYTES,
    ensures
        views(r@) == text_ops_spec(text@, x, y, format),
{
    let bytes = text.as_str().as_bytes();
    let newlines = count_newline_bytes(bytes);
    let height: u64 = 28 + 8 * (newlines as u64);
    let mut ops: Vec<Op> = Vec::new();
    ops.push(Op::SetRowHeight { row: y, height: height });
    ops.push(Op::WriteText { row: y, col: 6 + x, text: text.clone(), format: format });
    proof {
        assert(views(ops@) =~= text_ops_spec(text@, x, y, format));
    }
    ops
}

/// Emits the operations for one embedded image: the fixed row height 230,
/// then the embedding request at the fixed column 6.
pub fn insert_image(url: &String, y: u32) -> (r: Vec<Op>)
    ensures
        views(r@) == image_ops_spec(url@, y),
{
    let mut ops: Vec<Op> = Vec::new();
    ops.push(Op::SetRowHeight { row: y, height: 230 });
    ops.push(Op::EmbedImage { row: y, col: 6, path: url.clone() });
    proof {
        assert(views(ops@) =~= image_ops_spec(url@, y));
    }
    ops
}

/// Renders one node at column `x`, row `y`, with inherited format `format`:
/// the recursive heart of the converter.
#[verifier::loop_isolation(false)]
pub fn expand_ast(node: &Node, x: u16, y: u32, format: Option<FormatSpec>) -> (r: Vec<Op>)
    requires
        wf(*node),
        x <= MAX_COLUMN,
    ensures
        views(r@) == ops_spec(*node, x, y, format),
    decreases node,
{
    match node {
        Node::Root { children } => {
            let mut ops: Vec<Op> = Vec::new();
            let mut i: usize = 0;
            while i < children.len()
                invariant
                    0 <= i <= children@.len(),
                    children@.len() <= MAX_BLOCKS,
                    forall|j: int| 0 <= j < children@.len() ==> wf(#[trigger] children@[j]),
                    views(ops@) + root_children_ops(children@, i as int)
                        == root_children_ops(children@, 0),
                decreases children@.len() - i,
            {
                let row: u32 = 3 + (i as u32);
                let ghost prev = ops@;
                let mut child_ops = expand_ast(&children[i], 0, row, None);
                let ghost child_view = child_ops@;
                ops.append(&mut child_ops);
                proof {
                    lemma_views_add(prev, child_view);
                    assert(root_children_ops(children@, i as int)
                        == ops_spec(children@[i as int], 0, (3 + i as int) as u32, None)
                            + root_children_ops(children@, i as int + 1));
                    assert(views(prev) + views(child_view)
                        + root_children_ops(children@, i as int + 1)
                        =~= views(prev) + root_children_ops(children@, i as int));
                }
                i = i + 1;
            }
            proof {
                assert(views(ops@) + root_children_ops(children@, children@.len() as int)
                    =~= views(ops@));
            }
            ops
        },
        Node::Paragraph { children } => {
            let mut ops: Vec<Op> = Vec::new();
            let mut i: usize = 0;
            while i < children.len()
                invariant
                    0 <= i <= children@.len(),
                    children@.len() <= MAX_INLINE,
                    forall|j: int| 0 <= j < children@.len() ==> wf(#[trigger] children@[j]),
                    views(ops@) + para_children_ops(children@, i as int, y, format)
                        == para_children_ops(children@, 0, y, format),
                decreases children@.len() - i,
            {
                let col: u16 = (2 * i) as u16;
                let ghost prev = ops@;
                let mut child_ops = expand_ast(&children[i], col, y, format);
                let ghost child_view = child_ops@;
                ops.append(&mut child_ops);
                proof {
                    lemma_views_add(prev, child_view);
                    assert(para_children_ops(children@, i as int, y, format)
                        == ops_spec(children@[i as int], (2 * i as int) as u16, y, format)
                            + para_children_ops(children@, i as int + 1, y, format));
                    assert(views(prev) + views(child_view)
                        + para_children_ops(children@, i as int + 1, y, format)
                        =~= views(prev) + para_children_ops(children@, i as int, y, format));
                }
                i = i + 1;
            }
            proof {
                assert(views(ops@) + para_children_ops(children@, children@.len() as int, y, format)
                    =~= views(ops@));
            }
            ops
        },
        Node::Heading { depth, children } => {
            if children.len() == 0 {
                let ops: Vec<Op> = Vec::new();
                proof {
                    assert(views(ops@) =~= Seq::<OpSpec>::empty());
                }
                ops
            } else {
                let preset = if *depth == 1 {
                    create_h1_format()
                } else if *depth == 2 {
                    create_h2_format()
                } else {
                    create_h3_format()
                };
                expand_ast(&children[0], 0, y, Some(preset))
            }
        },
        Node::Text { value } => write_string(value, x, y, format),
        Node::Code { value } => write_string(value, 0, y, Some(create_code_format())),
        Node::Emphasis { children } => {
            if children.len() == 0 {
                let ops: Vec<Op> = Vec::new();
                proof {
                    assert(views(ops@) =~= Seq::<OpSpec>::empty());
                }
                ops
            } else {
                expand_ast(&children[0], x, y, Some(create_bold_format()))
            }
        },
        Node::InlineCode { value } => write_string(value, x, y, Some(create_inline_format())),
        Node::BlockQuote { children } => {
            if children.len() == 0 {
                let ops: Vec<Op> = Vec::new();
                proof {
                    assert(views(ops@) =~= Seq::<OpSpec>::empty());
                }
                ops
            } else {
                expand_ast(&children[0], 0, y, Some(create_quotation_format()))
            }
        },
        Node::Image { url } => insert_image(url, y),
        Node::Other => {
            let ops: Vec<Op> = Vec::new();
            proof {
                assert(views(ops@) =~= Seq::<OpSpec>::empty());
            }
            ops
        },
    }
}

/// The children of a container node; terminal nodes have none.
pub open spec fn children_of(n: Node) -> Seq<Node> {
    match n {
        Node::Root { children } => children@,
        Node::Paragraph { children } => children@,
        Node::Heading { children, .. } => children@,
        Node::Emphasis { children } => children@,
        Node::BlockQuote { children } => children@,
        _ => Seq::empty(),
    }
}

/// The uniform row-height preset applied before the traversal: rows 3 to
/// `3 + n - 1`, one per top-level block, all at the single-line height 28.
pub open spec fn preset_rows_spec(n: nat) -> Seq<OpSpec> {
    Seq::new(n, |i: int| OpSpec::SetRowHeight { row: (3 + i) as u32, height: 28u64 })
}

/// Everything written for one document: the narrow column widths, the
/// uniform row-height preset, then the traversal's operations — in that
/// order, so the per-node heights override the preset.
pub open spec fn sheet_ops_spec(doc: Node) -> Seq<OpSpec>
    recommends
        doc is Root,
{
    seq![OpSpec::SetColumnWidth { first_col: 0u16, last_col: 100u16, width: 3u32 }]
        + preset_rows_spec(children_of(doc).len()) + ops_spec(doc, 0, 0, None)
}

/// Lays out a whole document: sets columns 0 to 100 to the fixed narrow
/// width, presets one row per top-level block to height 28, then renders the
/// tree. The operation order guarantees that per-node row heights win over
/// the preset.
#[verifier::loop_isolation(false)]
pub fn layout_document(doc: &Node) -> (r: Vec<Op>)
    requires
        wf(*doc),
        *doc is Root,
    ensures
        views(r@) == sheet_ops_spec(*doc),
{
    let mut ops: Vec<Op> = Vec::new();
    ops.push(Op::SetColumnWidth { first_col: 0, last_col: 100, width: 3 });
    let block_count = match doc {
        Node::Root { children } => children.len(),
        _ => 0,
    };
    let mut i: usize = 0;
    while i < block_count
        invariant
            0 <= i <= block_count,
            block_count == children_of(*doc).len(),
            block_count <= MAX_BLOCKS,
            views(ops@) =~= seq![
                OpSpec::SetColumnWidth { first_col: 0u16, last_col: 100u16, width: 3u32 },
            ] + preset_rows_spec(i as nat),
        decreases block_count - i,
    {
        let ghost prev = ops@;
        ops.push(Op::SetRowHeight { row: 3 + (i as u32), height: 28 });
        proof {
            assert(views(ops@) =~= views(prev).push(
                OpSpec::SetRowHeight { row: (3 + i as int) as u32, height: 28u64 },
            ));
            assert(preset_rows_spec(i as nat + 1)
                =~= preset_rows_spec(i as nat).push(
                    OpSpec::SetRowHeight { row: (3 + i as int) as u32, height: 28u64 },
                ));
            assert(views(ops@) =~= seq![
                OpSpec::SetColumnWidth { first_col: 0u16, last_col: 100u16, width: 3u32 },
            ] + preset_rows_spec(i as nat + 1));
        }
        i = i + 1;
    }
    let ghost prefix = ops@;
    let mut body = expand_ast(doc, 0, 0, None);
    let ghost body_view = body@;
    ops.append(&mut body);
    proof {
        assert(views(prefix + body_view) =~= views(prefix) + views(body_view));
        assert(views(ops@) =~= sheet_ops_spec(*doc));
    }
    ops
}

/// Checks the machine limits of [`wf`] at run time, so that an unverified
/// caller can establish them before laying out a parsed document.
#[verifier::loop_isolation(false)]
pub fn check_wf(node: &Node) -> (b: bool)
    ensures
        b == wf(*node),
    decreases node,
{
    match node {
        Node::Root { children } => {
            if children.len() > MAX_BLOCKS {
                return false;
            }
            check_wf_children(children)
        },
        Node::Paragraph { children } => {
            if children.len() > MAX_INLINE {
                return false;
            }
            check_wf_children(children)
        },
        Node::Heading { depth, children } => check_wf_children(children),
        Node::Text { value } => value.as_str().as_bytes().len() <= MAX_TEXT_BYTES,
        Node::Code { value } => value.as_str().as_bytes().len() <= MAX_TEXT_BYTES,
        Node::Emphasis { children } => check_wf_children(children),
        Node::InlineCode { value } => value.as_str().as_bytes().len() <= MAX_TEXT_BYTES,
        Node::BlockQuote { children } => check_wf_children(children),
        Node::Image { url } => true,
        Node::Other => true,
    }
}

/// Checks [`wf`] for every node of a child list.
#[verifier::loop_isolation(false)]
fn check_wf_children(children: &Vec<Node>) -> (b: bool)
    ensures
        b == forall|i: int| 0 <= i < children@.len() ==> wf(#[trigger] children@[i]),
    decreases children,
{
    let mut i: usize = 0;
    while i < children.len()
        invariant
            0 <= i <= children@.len(),
            forall|j: int| 0 <= j < i ==> wf(#[trigger] children@[j]),
        decreases children@.len() - i,
    {
        if !check_wf(&children[i]) {
            return false;
        }
        i = i + 1;
    }
    true
}

} // verus!
