//! Converts a Markdown document tree into a deterministic sequence of
//! spreadsheet writer operations: headings become sized text, emphasis becomes
//! bold, code becomes shaded cells, images are resized and embedded.
//!
//! The layout engine walks the tree and assigns each piece of content a
//! row, a column and a format preset; the resulting operation list is applied
//! to an actual workbook by a thin unverified front end.

pub mod doc;
pub mod format;
pub mod img;
pub mod laws;
pub mod layout;
pub mod ops;
