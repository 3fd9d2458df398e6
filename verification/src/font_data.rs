use vstd::prelude::*;

use crate::glyph_data::GlyphData;

verus! {

/// The finished font package: face-wide metrics and one record per placed
/// glyph, ordered by codepoint.
#[derive(Clone, Debug)]
pub struct FontData {
    pub line_height: i32,
    pub units_per_em: u32,
    pub ascender: i32,
    pub descender: i32,
    pub glyph_data: Vec<GlyphData>,
}

} // verus!
