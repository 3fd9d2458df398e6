use vstd::prelude::*;

use crate::enums::{ColorType, UVSpace};

verus! {

/// Rounds `a / b` to the nearest integer, halves away from zero, for
/// `a >= 0` and `b >= 1`.
pub open spec fn round_div(a: int, b: int) -> int {
    (2 * a + b) / (2 * b)
}

/// Configuration of one atlas build.
///
/// The uniform glyph scale is an exact rational `scale_numer / scale_denom`,
/// so that scaled dimensions are well-defined integers. `range` and `degrees`
/// are parameters of the external distance-field renderer and are carried
/// through unchanged.
#[derive(Clone, Copy)]
pub struct Args {
    pub scale_numer: u32,
    pub scale_denom: u32,
    pub padding: u32,
    pub max_atlas_width: u32,
    pub range: u32,
    pub uv_space: UVSpace,
    pub color_type: ColorType,
    pub degrees: u32,
    pub scale_texture_to_po2: bool,
    pub thread_count: u32,
}

impl Args {
    /// A usable configuration: the scale denominator must not be zero.
    pub open spec fn spec_wf(self) -> bool {
        self.scale_denom >= 1
    }

    /// Half the configured padding, the gap added to each side of a shelf cell.
    pub open spec fn spec_pad_half(self) -> int {
        self.padding as int / 2
    }

    /// A font-unit dimension after uniform scaling, rounded to the nearest pixel.
    pub open spec fn spec_scaled(self, unit: int) -> int {
        round_div(unit * self.scale_numer, self.scale_denom as int)
    }

    /// A font-unit dimension after scaling and padding: the stride the glyph
    /// occupies on its shelf.
    pub open spec fn spec_padded(self, unit: int) -> int {
        self.spec_scaled(unit) + self.spec_pad_half()
    }

    /// Arguments with default settings: identity scale, no padding, a
    /// 512-wide atlas, renderer range 4 and corner angle of 3 degrees.
    pub fn default() -> (r: Args)
        ensures
            r.scale_numer == 1,
            r.scale_denom == 1,
            r.padding == 0,
            r.max_atlas_width == 512,
            r.range == 4,
            r.uv_space.bits == 0,
            r.color_type == ColorType::Simple,
            r.degrees == 3,
            !r.scale_texture_to_po2,
            r.thread_count == 1,
            r.spec_wf(),
    {
        Args {
            scale_numer: 1,
            scale_denom: 1,
            padding: 0,
            max_atlas_width: 512,
            range: 4,
            uv_space: UVSpace::default_space(),
            color_type: ColorType::Simple,
            degrees: 3,
            scale_texture_to_po2: false,
            thread_count: 1,
        }
    }

    /// Defines the UV space convention for the generated glyphs.
    pub fn with_uv_space(self, uv_space: UVSpace) -> (r: Args)
        ensures
            r == (Args { uv_space, ..self }),
    {
        let mut s = self;
        s.uv_space = uv_space;
        s
    }

    /// Adjusts the uniform scale of the generated glyphs to the exact
    /// rational `numer / denom`.
    pub fn with_uniform_scale(self, numer: u32, denom: u32) -> (r: Args)
        requires
            denom >= 1,
        ensures
            r == (Args { scale_numer: numer, scale_denom: denom, ..self }),
            r.spec_wf(),
    {
        let mut s = self;
        s.scale_numer = numer;
        s.scale_denom = denom;
        s
    }

    /// Adjusts the amount of space between glyphs in the atlas.
    pub fn with_padding(self, padding: u32) -> (r: Args)
        ensures
            r == (Args { padding, ..self }),
    {
        let mut s = self;
        s.padding = padding;
        s
    }

    /// Sets the angle, in degrees, that the renderer treats as a corner.
    pub fn with_angle(self, degrees: u32) -> (r: Args)
        ensures
            r == (Args { degrees, ..self }),
    {
        let mut s = self;
        s.degrees = degrees;
        s
    }

    /// Sets how the renderer colors the distance between edges per channel.
    pub fn with_color_type(self, color_type: ColorType) -> (r: Args)
        ensures
            r == (Args { color_type, ..self }),
    {
        let mut s = self;
        s.color_type = color_type;
        s
    }

    /// Sets the maximum width of the atlas.
    pub fn with_max_atlas(self, max_atlas_width: u32) -> (r: Args)
        ensures
            r == (Args { max_atlas_width, ..self }),
    {
        let mut s = self;
        s.max_atlas_width = max_atlas_width;
        s
    }

    /// Sets the distance range handed to the renderer.
    pub fn with_range(self, range: u32) -> (r: Args)
        ensures
            r == (Args { range, ..self }),
    {
        let mut s = self;
        s.range = range;
        s
    }

    /// Requests that the atlas height be rounded up to a power of two.
    pub fn with_scaled_texture(self, scale_texture_to_po2: bool) -> (r: Args)
        ensures
            r == (Args { scale_texture_to_po2, ..self }),
    {
        let mut s = self;
        s.scale_texture_to_po2 = scale_texture_to_po2;
        s
    }

    /// Sets the requested worker count for the compositing stage.
    pub fn with_thread_count(self, thread_count: u32) -> (r: Args)
        ensures
            r == (Args { thread_count, ..self }),
    {
        let mut s = self;
        s.thread_count = thread_count;
        s
    }

    /// The exact rational scale as a `(numerator, denominator)` pair.
    pub fn get_scale(&self) -> (r: (u32, u32))
        ensures
            r.0 == self.scale_numer,
            r.1 == self.scale_denom,
    {
        (self.scale_numer, self.scale_denom)
    }

    /// Scales a font-unit dimension and adds the padding gap: the stride the
    /// glyph occupies on its shelf.
    pub fn scale_dimension_with_padding(&self, unit: i32) -> (r: i32)
        requires
            self.spec_wf(),
            0 <= unit,
            2 * unit * self.scale_numer + self.scale_denom <= u64::MAX,
            self.spec_padded(unit as int) <= i32::MAX,
        ensures
            r == self.spec_padded(unit as int),
    {
        proof {
            assert(unit * self.scale_numer >= 0 && 2 * (unit * self.scale_numer)
                + self.scale_denom <= u64::MAX) by (nonlinear_arith)
                requires
                    0 <= unit,
                    2 * unit * self.scale_numer + self.scale_denom <= u64::MAX,
                    self.scale_denom >= 1,
            ;
        }
        let a: u64 = (unit as u64) * (self.scale_numer as u64);
        let scaled: u64 = (2 * a + self.scale_denom as u64) / (2 * self.scale_denom as u64);
        proof {
            assert(scaled == round_div(unit * self.scale_numer, self.scale_denom as int));
            assert(0 <= round_div(unit * self.scale_numer, self.scale_denom as int))
                by (nonlinear_arith)
                requires
                    unit >= 0,
                    self.scale_denom >= 1,
            ;
        }
        self.add_padding(scaled as i32)
    }

    /// Scales a font-unit dimension without padding: the size of the bitmap
    /// the renderer is asked for.
    pub fn scale_dimension(&self, unit: i32) -> (r: i32)
        requires
            self.spec_wf(),
            0 <= unit,
            2 * unit * self.scale_numer + self.scale_denom <= u64::MAX,
            self.spec_scaled(unit as int) <= i32::MAX,
        ensures
            r == self.spec_scaled(unit as int),
    {
        proof {
            assert(unit * self.scale_numer >= 0 && 2 * (unit * self.scale_numer)
                + self.scale_denom <= u64::MAX) by (nonlinear_arith)
                requires
                    0 <= unit,
                    2 * unit * self.scale_numer + self.scale_denom <= u64::MAX,
                    self.scale_denom >= 1,
            ;
        }
        let a: u64 = (unit as u64) * (self.scale_numer as u64);
        let scaled: u64 = (2 * a + self.scale_denom as u64) / (2 * self.scale_denom as u64);
        proof {
            assert(scaled == round_div(unit * self.scale_numer, self.scale_denom as int));
        }
        scaled as i32
    }

    /// The padded dimension computed in wide arithmetic, for bounds checks
    /// before `i32` results are known to fit.
    pub(crate) fn padded_u64(&self, unit: i32) -> (r: u64)
        requires
            self.spec_wf(),
            0 <= unit <= 0x1_0000,
        ensures
            r == self.spec_padded(unit as int),
    {
        proof {
            assert(unit * self.scale_numer >= 0 && 2 * (unit * self.scale_numer)
                + self.scale_denom <= u64::MAX) by (nonlinear_arith)
                requires
                    0 <= unit <= 0x1_0000,
                    self.scale_numer <= u32::MAX,
                    self.scale_denom >= 1,
                    self.scale_denom <= u32::MAX,
            ;
            assert(0 <= round_div(unit * self.scale_numer, self.scale_denom as int)
                && round_div(unit * self.scale_numer, self.scale_denom as int) <= unit
                * self.scale_numer + 1) by (nonlinear_arith)
                requires
                    0 <= unit,
                    self.scale_denom >= 1,
            ;
        }
        let a: u64 = (unit as u64) * (self.scale_numer as u64);
        let scaled: u64 = (2 * a + self.scale_denom as u64) / (2 * self.scale_denom as u64);
        proof {
            assert(scaled == round_div(unit * self.scale_numer, self.scale_denom as int));
        }
        scaled + (self.padding / 2) as u64
    }

    /// Adds the padding gap to an already scaled dimension.
    pub fn add_padding(&self, scaled_unit: i32) -> (r: i32)
        requires
            scaled_unit + self.spec_pad_half() <= i32::MAX,
        ensures
            r == scaled_unit + self.spec_pad_half(),
    {
        scaled_unit + (self.padding / 2) as i32
    }
}

/// A nonnegative dimension scales to a nonnegative pixel count, and padding
/// only grows it.
pub proof fn lemma_scaled_bounds(a: Args, unit: int)
    requires
        a.spec_wf(),
        0 <= unit,
    ensures
        0 <= a.spec_scaled(unit),
        a.spec_scaled(unit) <= a.spec_padded(unit),
{
    assert(0 <= round_div(unit * a.scale_numer, a.scale_denom as int)) by (nonlinear_arith)
        requires
            0 <= unit,
            a.scale_denom >= 1,
    ;
}

/// Uniform scaling preserves the order of dimensions.
pub proof fn lemma_scaled_monotone(a: Args, unit1: int, unit2: int)
    requires
        a.spec_wf(),
        0 <= unit1 <= unit2,
    ensures
        a.spec_scaled(unit1) <= a.spec_scaled(unit2),
        a.spec_padded(unit1) <= a.spec_padded(unit2),
{
    assert(round_div(unit1 * a.scale_numer, a.scale_denom as int) <= round_div(
        unit2 * a.scale_numer,
        a.scale_denom as int,
    )) by (nonlinear_arith)
        requires
            0 <= unit1 <= unit2,
            a.scale_denom >= 1,
    ;
}

} // verus!
