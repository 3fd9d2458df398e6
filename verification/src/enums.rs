use vstd::prelude::*;

verus! {

/// How the renderer assigns channel colors to the edges of a glyph outline.
///
/// The packing core never interprets this value; it is carried through to the
/// external distance-field renderer.
#[derive(Clone, Copy, PartialEq, Eq, Structural, Debug)]
pub enum ColorType {
    Simple,
    InkTrap,
    Distance,
}

/// Bit of `UVSpace` requesting `u` coordinates mirrored as `1 - u`.
pub const UV_ONE_MINUS_U: u32 = 1;

/// Bit of `UVSpace` requesting `v` coordinates mirrored as `1 - v`.
pub const UV_ONE_MINUS_V: u32 = 2;

/// The texture-coordinate convention for the generated atlas: two independent
/// flip flags packed as bits, so that conventions combine with `union`.
#[derive(Clone, Copy, PartialEq, Eq, Structural, Debug)]
pub struct UVSpace {
    pub bits: u32,
}

impl UVSpace {
    /// True when `u` coordinates are mirrored.
    pub open spec fn spec_flips_u(self) -> bool {
        self.bits & UV_ONE_MINUS_U != 0
    }

    /// True when `v` coordinates are mirrored.
    pub open spec fn spec_flips_v(self) -> bool {
        self.bits & UV_ONE_MINUS_V != 0
    }

    /// The identity convention: no flip on either axis.
    pub fn default_space() -> (r: UVSpace)
        ensures
            r.bits == 0,
            !r.spec_flips_u(),
            !r.spec_flips_v(),
    {
        proof {
            assert(0u32 & UV_ONE_MINUS_U == 0) by (bit_vector);
            assert(0u32 & UV_ONE_MINUS_V == 0) by (bit_vector);
        }
        UVSpace { bits: 0 }
    }

    /// The convention mapping `u` to `1 - u`.
    pub fn one_minus_u() -> (r: UVSpace)
        ensures
            r.bits == UV_ONE_MINUS_U,
            r.spec_flips_u(),
            !r.spec_flips_v(),
    {
        proof {
            assert(1u32 & 1u32 != 0) by (bit_vector);
            assert(1u32 & 2u32 == 0) by (bit_vector);
        }
        UVSpace { bits: UV_ONE_MINUS_U }
    }

    /// The convention mapping `v` to `1 - v`.
    pub fn one_minus_v() -> (r: UVSpace)
        ensures
            r.bits == UV_ONE_MINUS_V,
            !r.spec_flips_u(),
            r.spec_flips_v(),
    {
        proof {
            assert(2u32 & 1u32 == 0) by (bit_vector);
            assert(2u32 & 2u32 != 0) by (bit_vector);
        }
        UVSpace { bits: UV_ONE_MINUS_V }
    }

    /// Combines two conventions: an axis is flipped when either operand flips it.
    pub fn union(self, other: UVSpace) -> (r: UVSpace)
        ensures
            r.bits == self.bits | other.bits,
            r.spec_flips_u() == (self.spec_flips_u() || other.spec_flips_u()),
            r.spec_flips_v() == (self.spec_flips_v() || other.spec_flips_v()),
    {
        let bits = self.bits | other.bits;
        proof {
            let a = self.bits;
            let b = other.bits;
            assert((a | b) & 1u32 != 0 <==> (a & 1u32 != 0 || b & 1u32 != 0)) by (bit_vector);
            assert((a | b) & 2u32 != 0 <==> (a & 2u32 != 0 || b & 2u32 != 0)) by (bit_vector);
        }
        UVSpace { bits }
    }

    /// Whether `u` coordinates are mirrored, as an executable test.
    pub fn flips_u(&self) -> (r: bool)
        ensures
            r == self.spec_flips_u(),
    {
        self.bits & UV_ONE_MINUS_U != 0
    }

    /// Whether `v` coordinates are mirrored, as an executable test.
    pub fn flips_v(&self) -> (r: bool)
        ensures
            r == self.spec_flips_v(),
    {
        self.bits & UV_ONE_MINUS_V != 0
    }
}

} // verus!
