//! Format presets: immutable style descriptors attached to written cells.
//!
//! Every preset is rendered with the fixed font family of [`font_family`]
//! and the black font color of [`font_color`]; a shaded preset additionally
//! gets the silver background of [`shade_color`]. Only the attributes that
//! vary between presets are carried in [`FormatSpec`], so presets can be
//! compared as plain data; the fixed attributes are stated here once and
//! read by the writer layer.

use vstd::prelude::*;

verus! {

/// A color a preset names: the fixed black of all text, or the silver
/// background shared by the shaded presets.
#[derive(Clone, Copy, Debug, PartialEq, Eq)]
pub enum PresetColor {
    Black,
    Silver,
}

/// The fixed font family every preset is rendered with.
pub open spec fn font_family_spec() -> Seq<char> {
    "メイリオ"@
}

/// The fixed font family every preset is rendered with; the writer layer
/// reads it from here, so the full style descriptor is stated in one place.
pub fn font_family() -> (r: &'static str)
    ensures
        r@ == font_family_spec(),
{
    "メイリオ"
}

/// The fixed font color of every preset: black.
pub fn font_color() -> (r: PresetColor)
    ensures
        r == PresetColor::Black,
{
    PresetColor::Black
}

/// The background color of every shaded preset: silver.
pub fn shade_color() -> (r: PresetColor)
    ensures
        r == PresetColor::Silver,
{
    PresetColor::Silver
}

/// A style descriptor for one written cell.
///
/// `font_size` of `None` means the writer's default size; `shaded` selects the
/// shared silver background used by inline code, block quotes and code blocks.
#[derive(Clone, Copy, Debug, PartialEq, Eq)]
pub struct FormatSpec {
    pub font_size: Option<u8>,
    pub bold: bool,
    pub shaded: bool,
}

/// The shared base preset: fixed font, black color, no overrides.
pub open spec fn base_format() -> FormatSpec {
    FormatSpec { font_size: None, bold: false, shaded: false }
}

/// Heading level 1: font size 20.
pub open spec fn h1_format() -> FormatSpec {
    FormatSpec { font_size: Some(20u8), bold: false, shaded: false }
}

/// Heading level 2: font size 16.
pub open spec fn h2_format() -> FormatSpec {
    FormatSpec { font_size: Some(16u8), bold: false, shaded: false }
}

/// Heading level 3 (used for any deeper heading as well): font size 13.
pub open spec fn h3_format() -> FormatSpec {
    FormatSpec { font_size: Some(13u8), bold: false, shaded: false }
}

/// Emphasis renders bold.
pub open spec fn bold_format() -> FormatSpec {
    FormatSpec { font_size: None, bold: true, shaded: false }
}

/// Inline code: shaded background.
pub open spec fn inline_format() -> FormatSpec {
    FormatSpec { font_size: None, bold: false, shaded: true }
}

/// Block quotes: shaded background.
pub open spec fn quotation_format() -> FormatSpec {
    FormatSpec { font_size: None, bold: false, shaded: true }
}

/// Code blocks: shaded background.
pub open spec fn code_format() -> FormatSpec {
    FormatSpec { font_size: None, bold: false, shaded: true }
}

/// The preset a heading of the given depth is rendered with:
/// depth 1 and 2 have their own presets, anything else falls back to level 3.
pub open spec fn heading_format(depth: u8) -> FormatSpec {
    if depth == 1 {
        h1_format()
    } else if depth == 2 {
        h2_format()
    } else {
        h3_format()
    }
}

pub fn create_format() -> (r: FormatSpec)
    ensures
        r == base_format(),
{
    FormatSpec { font_size: None, bold: false, shaded: false }
}

pub fn create_h1_format() -> (r: FormatSpec)
    ensures
        r == h1_format(),
{
    let mut format = create_format();
    format.font_size = Some(20u8);
    format
}

pub fn create_h2_format() -> (r: FormatSpec)
    ensures
        r == h2_format(),
{
    let mut format = create_format();
    format.font_size = Some(16u8);
    format
}

pub fn create_h3_format() -> (r: FormatSpec)
    ensures
        r == h3_format(),
{
    let mut format = create_format();
    format.font_size = Some(13u8);
    format
}

pub fn create_bold_format() -> (r: FormatSpec)
    ensures
        r == bold_format(),
{
    let mut format = create_format();
    format.bold = true;
    format
}

pub fn create_inline_format() -> (r: FormatSpec)
    ensures
        r == inline_format(),
{
    let mut format = create_format();
    format.shaded = true;
    format
}

pub fn create_quotation_format() -> (r: FormatSpec)
    ensures
        r == quotation_format(),
{
    let mut format = create_format();
    format.shaded = true;
    format
}

pub fn create_code_format() -> (r: FormatSpec)
    ensures
        r == code_format(),
{
    let mut format = create_format();
    format.shaded = true;
    format
}

} // verus!
