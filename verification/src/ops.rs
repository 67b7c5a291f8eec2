//! Writer operations: the layout engine's entire output is an ordered list
//! of these, which a thin front end replays against an actual worksheet.

use vstd::prelude::*;
use crate::format::FormatSpec;

verus! {

/// One call to the spreadsheet writer.
#[derive(Debug, PartialEq)]
pub enum Op {
    /// Write `text` into the cell at (`row`, `col`), styled by `format`
    /// (`None` means the writer's default style).
    WriteText { row: u32, col: u16, text: String, format: Option<FormatSpec> },
    /// Set the height of `row`, in the writer's height units.
    SetRowHeight { row: u32, height: u64 },
    /// Set every column from `first_col` to `last_col` inclusive to `width`.
    SetColumnWidth { first_col: u16, last_col: u16, width: u32 },
    /// Embed the image found at `path`, resized, at (`row`, `col`).
    EmbedImage { row: u32, col: u16, path: String },
}

/// The mathematical shape of one writer operation: as [`Op`], with strings
/// abstracted to character sequences.
pub enum OpSpec {
    WriteText { row: u32, col: u16, text: Seq<char>, format: Option<FormatSpec> },
    SetRowHeight { row: u32, height: u64 },
    SetColumnWidth { first_col: u16, last_col: u16, width: u32 },
    EmbedImage { row: u32, col: u16, path: Seq<char> },
}

impl View for Op {
    type V = OpSpec;

    open spec fn view(&self) -> OpSpec {
        match self {
            Op::WriteText { row, col, text, format } => OpSpec::WriteText {
                row: *row,
                col: *col,
                text: text@,
                format: *format,
            },
            Op::SetRowHeight { row, height } => OpSpec::SetRowHeight {
                row: *row,
                height: *height,
            },
            Op::SetColumnWidth { first_col, last_col, width } => OpSpec::SetColumnWidth {
                first_col: *first_col,
                last_col: *last_col,
                width: *width,
            },
            Op::EmbedImage { row, col, path } => OpSpec::EmbedImage {
                row: *row,
                col: *col,
                path: path@,
            },
        }
    }
}

/// The views of a sequence of operations, element by element.
pub open spec fn views(s: Seq<Op>) -> Seq<OpSpec> {
    s.map_values(|o: Op| o@)
}

/// The row an operation touches.
pub open spec fn op_row(op: OpSpec) -> u32 {
    match op {
        OpSpec::WriteText { row, .. } => row,
        OpSpec::SetRowHeight { row, .. } => row,
        OpSpec::SetColumnWidth { .. } => 0u32,
        OpSpec::EmbedImage { row, .. } => row,
    }
}

/// The column a cell-addressed operation starts at.
pub open spec fn op_col(op: OpSpec) -> u16 {
    match op {
        OpSpec::WriteText { col, .. } => col,
        OpSpec::EmbedImage { col, .. } => col,
        _ => 0u16,
    }
}

/// The height a row-height operation sets.
pub open spec fn op_height(op: OpSpec) -> u64 {
    match op {
        OpSpec::SetRowHeight { height, .. } => height,
        _ => 0u64,
    }
}

} // verus!
