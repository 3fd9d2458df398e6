use vstd::prelude::*;

use crate::rank::RectData;

verus! {

// Every query of a font goes through the wrappers below, each keyed on the
// raw font bytes: `ttf_parser::Face::parse` is a deterministic function of
// the bytes (and documents parsing as cheap sanitization), so each lookup's
// result is a function of the bytes and its plain arguments, named by an
// uninterpreted spec function. That is what lets the collection stage state
// exactly which characters a font resolves.

/// Whether `ttf_parser::Face::parse` accepts the bytes as a font face. The
/// outcome is a function of the bytes alone; what it is for given bytes only
/// the parser decides.
pub uninterp spec fn font_parses(data: Seq<u8>) -> bool;

/// The glyph identifier `ttf_parser::Face::glyph_index` resolves for a
/// codepoint in the font the bytes encode; `None` when the bytes do not
/// parse or the font has no glyph for the codepoint.
pub uninterp spec fn glyph_index_of(data: Seq<u8>, c: char) -> Option<u16>;

/// The horizontal advance `ttf_parser::Face::glyph_hor_advance` reports for
/// a glyph of the font the bytes encode; `None` when the bytes do not parse
/// or the font carries no metric for the glyph.
pub uninterp spec fn advance_of(data: Seq<u8>, glyph_index: u16) -> Option<u16>;

/// The horizontal side bearing `ttf_parser::Face::glyph_hor_side_bearing`
/// reports for a glyph of the font the bytes encode.
pub uninterp spec fn side_bearing_of(data: Seq<u8>, glyph_index: u16) -> Option<i16>;

/// The bounding box `ttf_parser::Face::glyph_bounding_box` reports for a
/// glyph of the font the bytes encode, as `(x_min, y_min, x_max, y_max)`.
/// The parser's source warns the box is not validated, so nothing is assumed
/// of its ordering.
pub uninterp spec fn bounding_box_of(data: Seq<u8>, glyph_index: u16) -> Option<
    (i16, i16, i16, i16),
>;

/// The horizontal ascender `ttf_parser::Face::ascender` reports for the font
/// the bytes encode; zero when the bytes do not parse.
pub uninterp spec fn ascender_of(data: Seq<u8>) -> i16;

/// The horizontal descender `ttf_parser::Face::descender` reports for the
/// font the bytes encode; zero when the bytes do not parse.
pub uninterp spec fn descender_of(data: Seq<u8>) -> i16;

/// The units per em `ttf_parser::Face::units_per_em` reports for the font
/// the bytes encode; zero when the bytes do not parse.
pub uninterp spec fn units_per_em_of(data: Seq<u8>) -> u16;

/// The bounding box the font reports, carried as the library's rectangle.
pub open spec fn box_rect_of(data: Seq<u8>, glyph_index: u16) -> Option<RectData> {
    match bounding_box_of(data, glyph_index) {
        Some(b) => Some(RectData { x_min: b.0, y_min: b.1, x_max: b.2, y_max: b.3 }),
        None => None,
    }
}

/// Relies on `ttf_parser::Face::parse`: whether the bytes parse as a font.
#[verifier::external_body]
pub(crate) fn font_check(data: &[u8]) -> (r: bool)
    ensures
        r == font_parses(data@),
{
    ttf_parser::Face::parse(data, 0).is_ok()
}

/// Relies on `ttf_parser::Face::parse` and `Face::glyph_index`: the glyph
/// the font resolves for a codepoint.
#[verifier::external_body]
pub(crate) fn font_glyph_index(data: &[u8], c: char) -> (r: Option<u16>)
    ensures
        r == glyph_index_of(data@, c),
        !font_parses(data@) ==> r is None,
{
    match ttf_parser::Face::parse(data, 0) {
        Ok(face) => face.glyph_index(c).map(|g| g.0),
        Err(_) => None,
    }
}

/// Relies on `ttf_parser::Face::parse` and `Face::glyph_hor_advance`: the
/// glyph's horizontal advance in font units.
#[verifier::external_body]
pub(crate) fn font_glyph_hor_advance(data: &[u8], glyph_index: u16) -> (r: Option<u16>)
    ensures
        r == advance_of(data@, glyph_index),
        !font_parses(data@) ==> r is None,
{
    match ttf_parser::Face::parse(data, 0) {
        Ok(face) => face.glyph_hor_advance(ttf_parser::GlyphId(glyph_index)),
        Err(_) => None,
    }
}

/// Relies on `ttf_parser::Face::parse` and `Face::glyph_hor_side_bearing`:
/// the glyph's horizontal side bearing in font units.
#[verifier::external_body]
pub(crate) fn font_glyph_hor_side_bearing(data: &[u8], glyph_index: u16) -> (r: Option<i16>)
    ensures
        r == side_bearing_of(data@, glyph_index),
        !font_parses(data@) ==> r is None,
{
    match ttf_parser::Face::parse(data, 0) {
        Ok(face) => face.glyph_hor_side_bearing(ttf_parser::GlyphId(glyph_index)),
        Err(_) => None,
    }
}

/// Relies on `ttf_parser::Face::parse` and `Face::glyph_bounding_box`: the
/// glyph's bounding box in font units.
#[verifier::external_body]
pub(crate) fn font_glyph_bounding_box(data: &[u8], glyph_index: u16) -> (r: Option<RectData>)
    ensures
        r == box_rect_of(data@, glyph_index),
        r is Some <==> bounding_box_of(data@, glyph_index) is Some,
        !font_parses(data@) ==> r is None,
{
    match ttf_parser::Face::parse(data, 0) {
        Ok(face) => face.glyph_bounding_box(ttf_parser::GlyphId(glyph_index)).map(
            |b|
                RectData { x_min: b.x_min, y_min: b.y_min, x_max: b.x_max, y_max: b.y_max },
        ),
        Err(_) => None,
    }
}

/// Relies on `ttf_parser::Face::parse` and `Face::ascender`.
#[verifier::external_body]
pub(crate) fn font_ascender(data: &[u8]) -> (r: i16)
    ensures
        r == ascender_of(data@),
{
    match ttf_parser::Face::parse(data, 0) {
        Ok(face) => face.ascender(),
        Err(_) => 0,
    }
}

/// Relies on `ttf_parser::Face::parse` and `Face::descender`.
#[verifier::external_body]
pub(crate) fn font_descender(data: &[u8]) -> (r: i16)
    ensures
        r == descender_of(data@),
{
    match ttf_parser::Face::parse(data, 0) {
        Ok(face) => face.descender(),
        Err(_) => 0,
    }
}

/// Relies on `ttf_parser::Face::parse` and `Face::units_per_em`, whose
/// documentation guarantees a value in `16..=16384` for any parsed face.
#[verifier::external_body]
pub(crate) fn font_units_per_em(data: &[u8]) -> (r: u16)
    ensures
        r == units_per_em_of(data@),
        font_parses(data@) ==> 16 <= r <= 16384,
{
    match ttf_parser::Face::parse(data, 0) {
        Ok(face) => face.units_per_em(),
        Err(_) => 0,
    }
}

} // verus!
