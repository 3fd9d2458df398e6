use vstd::prelude::*;

use crate::enums::UVSpace;

verus! {

/// Clamps a pixel coordinate into `[0, den]`, the numerator range of a
/// normalized texture coordinate with denominator `den`.
pub open spec fn clamp_num(v: int, den: int) -> int {
    if v < 0 {
        0
    } else if v > den {
        den
    } else {
        v
    }
}

/// Maps one axis of a placement rectangle to normalized texture coordinates,
/// as exact fractions over the atlas dimension: both ends are clamped into
/// the atlas, and a flipped axis maps `min` to `den - max` and `max` to
/// `den - min`, so the minimum stays below the maximum.
pub open spec fn uv_axis_map(min: int, max: int, den: int, flip: bool) -> (int, int) {
    let cmin = clamp_num(min, den);
    let cmax = clamp_num(max, den);
    if flip {
        (den - cmax, den - cmin)
    } else {
        (cmin, cmax)
    }
}

/// Undoes `uv_axis_map` on coordinates that needed no clamping.
pub open spec fn uv_axis_unmap(lo: int, hi: int, den: int, flip: bool) -> (int, int) {
    if flip {
        (den - hi, den - lo)
    } else {
        (lo, hi)
    }
}

/// UV round trip: mapping a placement interval that lies inside the atlas to
/// texture coordinates and back recovers the interval exactly, with or
/// without a flip.
pub proof fn lemma_uv_round_trip(min: int, max: int, den: int, flip: bool)
    requires
        0 <= min <= den,
        0 <= max <= den,
    ensures
        ({
            let (lo, hi) = uv_axis_map(min, max, den, flip);
            uv_axis_unmap(lo, hi, den, flip) == (min, max)
        }),
{
}

/// One glyph's output record: codepoint, horizontal metrics, and the
/// normalized texture coordinates of its atlas region.
///
/// Texture coordinates are exact fractions: numerator over the atlas
/// dimension of the axis, numerators clamped into `[0, denominator]`.
#[derive(Clone, Copy, Debug)]
pub struct GlyphData {
    pub unicode: i32,
    pub advance: u32,
    pub has_bitmap: bool,
    pub metrics_x: i32,
    pub metrics_y: i32,
    pub bearings_x: i32,
    pub bearings_y: i32,
    pub uv_x_num: u32,
    pub uv_y_num: u32,
    pub uv_z_num: u32,
    pub uv_w_num: u32,
    pub uv_den_x: u32,
    pub uv_den_y: u32,
}

impl GlyphData {
    /// The numerators of `(u_min, v_min, u_max, v_max)`.
    pub open spec fn spec_uvs(self) -> (int, int, int, int) {
        (self.uv_x_num as int, self.uv_y_num as int, self.uv_z_num as int, self.uv_w_num as int)
    }

    /// The denominators of the `u` and `v` axes: the atlas dimensions the
    /// record was mapped against.
    pub open spec fn spec_uv_dens(self) -> (int, int) {
        (self.uv_den_x as int, self.uv_den_y as int)
    }

    /// The stored bounding box metrics.
    pub open spec fn spec_metrics(self) -> (int, int) {
        (self.metrics_x as int, self.metrics_y as int)
    }

    /// The stored bearings.
    pub open spec fn spec_bearings(self) -> (int, int) {
        (self.bearings_x as int, self.bearings_y as int)
    }

    /// UV numerators never exceed their denominators.
    pub open spec fn spec_uvs_wf(self) -> bool {
        &&& self.uv_x_num <= self.uv_den_x
        &&& self.uv_z_num <= self.uv_den_x
        &&& self.uv_y_num <= self.uv_den_y
        &&& self.uv_w_num <= self.uv_den_y
    }

    /// A record built straight from the font's metrics for one character:
    /// advance, bounding box size, and horizontal bearing, without texture
    /// coordinates. `None` exactly when the font cannot resolve the character
    /// or carries no advance for its glyph.
    pub fn from_glyph(c: char, font_data: &[u8]) -> (r: Option<GlyphData>)
        ensures
            ({
                let data = font_data@;
                let gio = crate::font::glyph_index_of(data, c);
                &&& (r is Some <==> (gio is Some && crate::font::advance_of(
                    data,
                    gio.unwrap(),
                ) is Some))
                &&& (r matches Some(g) ==> {
                    let gi = gio.unwrap();
                    &&& g.unicode == c as int
                    &&& g.advance == crate::font::advance_of(data, gi).unwrap()
                    &&& g.spec_bearings() == (
                        match crate::font::side_bearing_of(data, gi) {
                            Some(b) => b as int,
                            None => 0int,
                        },
                        0int,
                    )
                    &&& g.spec_metrics() == (
                    match crate::font::box_rect_of(data, gi) {
                        Some(b) => (b.spec_width(), b.spec_height()),
                        None => (0int, 0int),
                    })
                    &&& g.has_bitmap
                    &&& g.spec_uvs() == (0int, 0int, 0int, 0int)
                    &&& g.spec_uv_dens() == (0int, 0int)
                })
            }),
    {
        let glyph_id = match crate::font::font_glyph_index(font_data, c) {
            Some(gi) => gi,
            None => {
                return None;
            },
        };
        let advance = match crate::font::font_glyph_hor_advance(font_data, glyph_id) {
            Some(a) => a,
            None => {
                return None;
            },
        };
        let bearing_x = match crate::font::font_glyph_hor_side_bearing(font_data, glyph_id) {
            Some(b) => b as i32,
            None => 0,
        };
        let (w, h) = match crate::font::font_glyph_bounding_box(font_data, glyph_id) {
            Some(b) => (b.x_max as i32 - b.x_min as i32, b.y_max as i32 - b.y_min as i32),
            None => (0, 0),
        };
        Some(
            GlyphData::from_char(c).with_advance(advance).with_metrics(w, h).with_bearings(
                bearing_x,
                0,
            ),
        )
    }

    /// A fresh record for a character, with zeroed metrics and coordinates.
    pub fn from_char(c: char) -> (r: GlyphData)
        ensures
            r.unicode == c as int,
            r.advance == 0,
            r.has_bitmap,
            r.spec_metrics() == (0int, 0int),
            r.spec_bearings() == (0int, 0int),
            r.spec_uvs() == (0int, 0int, 0int, 0int),
            r.spec_uv_dens() == (0int, 0int),
    {
        GlyphData::from_unicode(c as i32)
    }

    /// A fresh record for a unicode value, with zeroed metrics and
    /// coordinates.
    pub fn from_unicode(unicode: i32) -> (r: GlyphData)
        ensures
            r.unicode == unicode,
            r.advance == 0,
            r.has_bitmap,
            r.spec_metrics() == (0int, 0int),
            r.spec_bearings() == (0int, 0int),
            r.spec_uvs() == (0int, 0int, 0int, 0int),
            r.spec_uv_dens() == (0int, 0int),
    {
        GlyphData {
            unicode,
            advance: 0,
            has_bitmap: true,
            metrics_x: 0,
            metrics_y: 0,
            bearings_x: 0,
            bearings_y: 0,
            uv_x_num: 0,
            uv_y_num: 0,
            uv_z_num: 0,
            uv_w_num: 0,
            uv_den_x: 0,
            uv_den_y: 0,
        }
    }

    /// Sets the glyph's horizontal advance.
    pub fn with_advance(self, advance: u16) -> (r: GlyphData)
        ensures
            r == (GlyphData { advance: advance as u32, ..self }),
    {
        let mut s = self;
        s.advance = advance as u32;
        s
    }

    /// Sets the glyph's bounding box size in font units.
    pub fn with_metrics(self, x: i32, y: i32) -> (r: GlyphData)
        ensures
            r == (GlyphData { metrics_x: x, metrics_y: y, ..self }),
            r.spec_metrics() == (x as int, y as int),
    {
        let mut s = self;
        s.metrics_x = x;
        s.metrics_y = y;
        s
    }

    /// Sets the glyph's bearings.
    pub fn with_bearings(self, x: i32, y: i32) -> (r: GlyphData)
        ensures
            r == (GlyphData { bearings_x: x, bearings_y: y, ..self }),
            r.spec_bearings() == (x as int, y as int),
    {
        let mut s = self;
        s.bearings_x = x;
        s.bearings_y = y;
        s
    }

    /// Records whether a bitmap was rendered for the glyph.
    pub fn with_bitmap(self, has_bitmap: bool) -> (r: GlyphData)
        ensures
            r == (GlyphData { has_bitmap, ..self }),
    {
        let mut s = self;
        s.has_bitmap = has_bitmap;
        s
    }

    /// Maps the glyph's placement rectangle to normalized texture
    /// coordinates over the atlas dimensions, flipping axes as the UV space
    /// requests; a flipped axis swaps which end becomes the minimum, so
    /// `u_min <= u_max` and `v_min <= v_max` always hold of the result.
    pub fn with_uvs(
        self,
        start: (i32, i32),
        end: (i32, i32),
        atlas_dimensions: (i32, i32),
        uv_space: UVSpace,
    ) -> (r: GlyphData)
        requires
            atlas_dimensions.0 >= 1,
            atlas_dimensions.1 >= 1,
        ensures
            (r.spec_uvs().0, r.spec_uvs().2) == uv_axis_map(
                start.0 as int,
                end.0 as int,
                atlas_dimensions.0 as int,
                uv_space.spec_flips_u(),
            ),
            (r.spec_uvs().1, r.spec_uvs().3) == uv_axis_map(
                start.1 as int,
                end.1 as int,
                atlas_dimensions.1 as int,
                uv_space.spec_flips_v(),
            ),
            r.spec_uv_dens() == (atlas_dimensions.0 as int, atlas_dimensions.1 as int),
            r.spec_uvs_wf(),
            r.unicode == self.unicode && r.advance == self.advance && r.has_bitmap
                == self.has_bitmap && r.spec_metrics() == self.spec_metrics()
                && r.spec_bearings() == self.spec_bearings(),
    {
        let (w, h) = atlas_dimensions;
        let x_min = clamp_to_den(start.0, w);
        let y_min = clamp_to_den(start.1, h);
        let x_max = clamp_to_den(end.0, w);
        let y_max = clamp_to_den(end.1, h);

        let mut s = self;
        if uv_space.flips_u() {
            s.uv_x_num = w as u32 - x_max;
            s.uv_z_num = w as u32 - x_min;
        } else {
            s.uv_x_num = x_min;
            s.uv_z_num = x_max;
        }
        if uv_space.flips_v() {
            s.uv_y_num = h as u32 - y_max;
            s.uv_w_num = h as u32 - y_min;
        } else {
            s.uv_y_num = y_min;
            s.uv_w_num = y_max;
        }
        s.uv_den_x = w as u32;
        s.uv_den_y = h as u32;
        s
    }

    /// Recovers the placement rectangle `(x_min, y_min, x_max, y_max)` the
    /// texture coordinates were mapped from, under the same UV space.
    pub fn uvs_to_pixels(&self, uv_space: UVSpace) -> (r: (i32, i32, i32, i32))
        requires
            self.spec_uvs_wf(),
            self.spec_uv_dens().0 <= i32::MAX,
            self.spec_uv_dens().1 <= i32::MAX,
        ensures
            (r.0 as int, r.2 as int) == uv_axis_unmap(
                self.spec_uvs().0,
                self.spec_uvs().2,
                self.spec_uv_dens().0,
                uv_space.spec_flips_u(),
            ),
            (r.1 as int, r.3 as int) == uv_axis_unmap(
                self.spec_uvs().1,
                self.spec_uvs().3,
                self.spec_uv_dens().1,
                uv_space.spec_flips_v(),
            ),
    {
        let (x_min, x_max) = if uv_space.flips_u() {
            (self.uv_den_x - self.uv_z_num, self.uv_den_x - self.uv_x_num)
        } else {
            (self.uv_x_num, self.uv_z_num)
        };
        let (y_min, y_max) = if uv_space.flips_v() {
            (self.uv_den_y - self.uv_w_num, self.uv_den_y - self.uv_y_num)
        } else {
            (self.uv_y_num, self.uv_w_num)
        };
        (x_min as i32, y_min as i32, x_max as i32, y_max as i32)
    }

    /// The size of the glyph's bounding box in font units.
    pub fn metrics(&self) -> (r: (i32, i32))
        ensures
            (r.0 as int, r.1 as int) == self.spec_metrics(),
    {
        (self.metrics_x, self.metrics_y)
    }

    /// The glyph's bearings.
    pub fn bearings(&self) -> (r: (i32, i32))
        ensures
            (r.0 as int, r.1 as int) == self.spec_bearings(),
    {
        (self.bearings_x, self.bearings_y)
    }

    /// The numerators of the glyph's texture coordinates
    /// `(u_min, v_min, u_max, v_max)`.
    pub fn uvs(&self) -> (r: (u32, u32, u32, u32))
        ensures
            (r.0 as int, r.1 as int, r.2 as int, r.3 as int) == self.spec_uvs(),
    {
        (self.uv_x_num, self.uv_y_num, self.uv_z_num, self.uv_w_num)
    }

    /// The denominators of the glyph's texture coordinates: the atlas
    /// dimensions they are normalized against.
    pub fn uv_denominators(&self) -> (r: (u32, u32))
        ensures
            (r.0 as int, r.1 as int) == self.spec_uv_dens(),
    {
        (self.uv_den_x, self.uv_den_y)
    }
}

/// Clamps a pixel coordinate into `[0, den]`.
fn clamp_to_den(v: i32, den: i32) -> (r: u32)
    requires
        den >= 1,
    ensures
        r == clamp_num(v as int, den as int),
{
    if v < 0 {
        0
    } else if v > den {
        den as u32
    } else {
        v as u32
    }
}

impl PartialEq for GlyphData {
    /// Records are equal when their codepoint, advance, metrics, bearings and
    /// texture coordinates agree; whether a bitmap was rendered does not
    /// enter.
    fn eq(&self, other: &GlyphData) -> (r: bool) {
        self.unicode == other.unicode && self.advance == other.advance && self.metrics_x
            == other.metrics_x && self.metrics_y == other.metrics_y && self.bearings_x
            == other.bearings_x && self.bearings_y == other.bearings_y && self.uv_x_num
            == other.uv_x_num && self.uv_y_num == other.uv_y_num && self.uv_z_num
            == other.uv_z_num && self.uv_w_num == other.uv_w_num && self.uv_den_x
            == other.uv_den_x && self.uv_den_y == other.uv_den_y
    }
}

impl vstd::std_specs::cmp::PartialEqSpecImpl for GlyphData {
    open spec fn obeys_eq_spec() -> bool {
        true
    }

    open spec fn eq_spec(&self, other: &GlyphData) -> bool {
        self.unicode == other.unicode && self.advance == other.advance && self.metrics_x
            == other.metrics_x && self.metrics_y == other.metrics_y && self.bearings_x
            == other.bearings_x && self.bearings_y == other.bearings_y && self.uv_x_num
            == other.uv_x_num && self.uv_y_num == other.uv_y_num && self.uv_z_num
            == other.uv_z_num && self.uv_w_num == other.uv_w_num && self.uv_den_x
            == other.uv_den_x && self.uv_den_y == other.uv_den_y
    }
}

} // verus!
