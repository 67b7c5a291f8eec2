//! The document tree: the parsed structural representation of a Markdown
//! source, a strict ownership tree of typed nodes.
//!
//! Only the variants that the layout engine renders are distinguished; every
//! other construct a parser may produce is collapsed into [`Node::Other`],
//! which renders nothing.

use vstd::prelude::*;
use vstd::utf8::encode_utf8;

verus! {

/// Largest number of top-level blocks a document may hold: block `i` owns
/// row `3 + i`, which must fit the writer's 32-bit row type.
pub const MAX_BLOCKS: usize = 0xffff_fffc;

/// Largest number of inline children of one paragraph: child `k` starts at
/// column `6 + 2 * k`, which must fit the writer's 16-bit column type.
pub const MAX_INLINE: usize = 32765;

/// Largest UTF-8 length of one text value, so that the row-height formula
/// `28 + 8 * newlines` stays far from the 64-bit limit.
pub const MAX_TEXT_BYTES: usize = 0x0fff_ffff;

/// One node of the document tree.
#[derive(Debug)]
pub enum Node {
    /// The ordered sequence of top-level blocks.
    Root { children: Vec<Node> },
    /// A paragraph of inline children.
    Paragraph { children: Vec<Node> },
    /// A heading of the given depth (1 is the largest).
    Heading { depth: u8, children: Vec<Node> },
    /// Plain text.
    Text { value: String },
    /// A block-level code listing.
    Code { value: String },
    /// Emphasised inline content, rendered bold.
    Emphasis { children: Vec<Node> },
    /// An inline code span.
    InlineCode { value: String },
    /// A quoted block.
    BlockQuote { children: Vec<Node> },
    /// An embedded image, referenced by file path.
    Image { url: String },
    /// Any construct the layout engine does not render.
    Other,
}

/// Machine limits on a document: every coordinate and row height that the
/// layout engine computes for it fits the writer's integer types.
pub open spec fn wf(n: Node) -> bool
    decreases n,
{
    match n {
        Node::Root { children } => {
            &&& children@.len() <= MAX_BLOCKS
            &&& forall|i: int| 0 <= i < children@.len() ==> wf(#[trigger] children@[i])
        },
        Node::Paragraph { children } => {
            &&& children@.len() <= MAX_INLINE
            &&& forall|i: int| 0 <= i < children@.len() ==> wf(#[trigger] children@[i])
        },
        Node::Heading { depth, children } => {
            forall|i: int| 0 <= i < children@.len() ==> wf(#[trigger] children@[i])
        },
        Node::Text { value } => encode_utf8(value@).len() <= MAX_TEXT_BYTES,
        Node::Code { value } => encode_utf8(value@).len() <= MAX_TEXT_BYTES,
        Node::Emphasis { children } => {
            forall|i: int| 0 <= i < children@.len() ==> wf(#[trigger] children@[i])
        },
        Node::InlineCode { value } => encode_utf8(value@).len() <= MAX_TEXT_BYTES,
        Node::BlockQuote { children } => {
            forall|i: int| 0 <= i < children@.len() ==> wf(#[trigger] children@[i])
        },
        Node::Image { .. } => true,
        Node::Other => true,
    }
}

/// Whether no `Root` node occurs at or below this node. A parser only ever
/// places `Root` at the top of the tree, so every child of a parsed root
/// satisfies this.
pub open spec fn root_free(n: Node) -> bool
    decreases n,
{
    match n {
        Node::Root { .. } => false,
        Node::Paragraph { children } => {
            forall|i: int| 0 <= i < children@.len() ==> root_free(#[trigger] children@[i])
        },
        Node::Heading { depth, children } => {
            forall|i: int| 0 <= i < children@.len() ==> root_free(#[trigger] children@[i])
        },
        Node::Emphasis { children } => {
            forall|i: int| 0 <= i < children@.len() ==> root_free(#[trigger] children@[i])
        },
        Node::BlockQuote { children } => {
            forall|i: int| 0 <= i < children@.len() ==> root_free(#[trigger] children@[i])
        },
        _ => true,
    }
}

} // verus!
