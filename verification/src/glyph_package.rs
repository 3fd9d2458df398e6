use vstd::prelude::*;

use crate::glyph_data::GlyphData;

verus! {

/// A set of glyph records bundled with the face's units per em, the shape in
/// which one font's records travel together.
pub struct GlyphPackage {
    pub units_per_em: u32,
    pub glyph_data: Vec<GlyphData>,
}

} // verus!
