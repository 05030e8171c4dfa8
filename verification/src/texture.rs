//! Textures: a surface coordinate `(u, v)` mapped to a color.  Either a
//! constant color, or a checkerboard that alternates two colors across
//! integer tile boundaries.
use crate::color::{Color, C3};
use crate::fixed::{fx_mul, fx_sub, lemma_fx_mul_one, sat64, tdiv, Fx, FX_HALF, FX_MAX, FX_ONE};
use vstd::prelude::*;

verus! {

/// `t` rounded to the nearest whole number of units (ties away from zero),
/// saturating at the edge of the scalar range.
pub open spec fn fx_round(t: int) -> int {
    if t >= 0 {
        sat64(((t + FX_HALF) / (FX_ONE as int)) * FX_ONE)
    } else {
        sat64(-((((-t) + FX_HALF) / (FX_ONE as int)) * FX_ONE))
    }
}

/// Signed fractional offset of `t` from its nearest whole number of units.
pub open spec fn fx_frac_offset(t: int) -> int {
    fx_sub(t, fx_round(t))
}

/// The color a checkerboard shows at `(u, v)`: scale both coordinates,
/// take each one's signed offset from the nearest integer, and show
/// `color_a` where the product of the offsets is positive, else `color_b`.
pub open spec fn chess_value(t: ChessTexture, u: int, v: int) -> C3 {
    let off_u = fx_frac_offset(fx_mul(t.scale@, u));
    let off_v = fx_frac_offset(fx_mul(t.scale@, v));
    if fx_mul(off_u, off_v) > 0 {
        t.color_a@
    } else {
        t.color_b@
    }
}

/// The color a texture shows at `(u, v)`.
pub open spec fn texture_value(t: Texture, u: int, v: int) -> C3 {
    match t {
        Texture::Constant(c) => c.color@,
        Texture::Chess(c) => chess_value(c, u, v),
    }
}

/// A texture that shows the same color everywhere.
#[derive(Clone, Copy, PartialEq, Eq, Structural, Debug)]
pub struct ConstantTexture {
    pub color: Color,
}

impl ConstantTexture {
    /// The texture's color; the coordinates are ignored.
    pub fn value(&self, u: Fx, v: Fx) -> (c: Color)
        ensures
            c@ == self.color@,
    {
        self.color
    }
}

/// A checkerboard of `color_a` and `color_b` tiles, `1 / scale` wide.
#[derive(Clone, Copy, PartialEq, Eq, Structural, Debug)]
pub struct ChessTexture {
    pub color_a: Color,
    pub color_b: Color,
    pub scale: Fx,
}

/// `t` rounded to the nearest whole number of units.
fn round_units(t: Fx) -> (r: Fx)
    ensures
        r@ == fx_round(t@),
{
    if t.bits >= 0 {
        let q: i128 = ((t.bits as i128) + 32768) / 65536;
        if q >= 0x8000_0000_0000 {
            Fx::from_bits(FX_MAX)
        } else {
            Fx::from_bits((q as i64) * 65536)
        }
    } else {
        let q: i128 = ((-(t.bits as i128)) + 32768) / 65536;
        if q >= 0x8000_0000_0000 {
            Fx::from_bits(-FX_MAX)
        } else {
            Fx::from_bits(-((q as i64) * 65536))
        }
    }
}

impl ChessTexture {
    /// The tile color at `(u, v)`.
    pub fn value(&self, u: Fx, v: Fx) -> (c: Color)
        ensures
            c@ == chess_value(*self, u@, v@),
    {
        let su = self.scale.mul(u);
        let off_u = su.sub(round_units(su));
        let sv = self.scale.mul(v);
        let off_v = sv.sub(round_units(sv));
        if off_u.mul(off_v).bits > 0 {
            self.color_a
        } else {
            self.color_b
        }
    }
}

/// At unit scale the checkerboard alternates exactly across a tile
/// boundary: a coordinate below the half-unit line and one above it (the
/// two sides of the boundary between offset signs) get opposite colors.
/// The one proviso is that the offsets are coarse enough that their
/// fixed-point product does not truncate to zero (`u1 * v` at least one
/// unit); at unit scale that holds for every coordinate pair more than a
/// quarter unit from the axes.
pub proof fn lemma_checker_alternates(t: ChessTexture, u1: int, u2: int, v: int)
    requires
        t.scale@ == FX_ONE as int,
        0 < u1 < FX_HALF,
        FX_HALF < u2 < FX_ONE,
        0 < v < FX_HALF,
        u1 * v >= FX_ONE,
    ensures
        chess_value(t, u1, v) == t.color_a@,
        chess_value(t, u2, v) == t.color_b@,
{
    lemma_fx_mul_one(u1);
    lemma_fx_mul_one(u2);
    lemma_fx_mul_one(v);
    // coordinates below one half round down to zero, so their offset is
    // the coordinate itself
    assert((u1 + FX_HALF) / (FX_ONE as int) == 0) by {
        vstd::arithmetic::div_mod::lemma_basic_div(u1 + FX_HALF, FX_ONE as int);
    };
    assert((v + FX_HALF) / (FX_ONE as int) == 0) by {
        vstd::arithmetic::div_mod::lemma_basic_div(v + FX_HALF, FX_ONE as int);
    };
    assert(fx_frac_offset(u1) == u1);
    assert(fx_frac_offset(v) == v);
    // a coordinate above one half rounds up to one, so its offset is
    // negative
    assert((u2 + FX_HALF) / (FX_ONE as int) == 1) by {
        vstd::arithmetic::div_mod::lemma_fundamental_div_mod_converse(
            u2 + FX_HALF,
            FX_ONE as int,
            1,
            u2 - FX_HALF,
        );
    };
    assert(fx_frac_offset(u2) == u2 - FX_ONE);
    // a product of positive offsets of at least one unit stays positive
    assert(fx_mul(u1, v) >= 1) by {
        assert(tdiv(u1 * v, FX_ONE as int) == (u1 * v) / (FX_ONE as int));
        vstd::arithmetic::div_mod::lemma_div_is_ordered(FX_ONE as int, u1 * v, FX_ONE as int);
    };
    // a product of offsets of opposite signs is not positive
    assert((u2 - FX_ONE) * v < 0) by (nonlinear_arith)
        requires
            u2 - FX_ONE < 0 && v > 0,
    ;
    assert(fx_mul(u2 - FX_ONE, v) <= 0);
}

/// A texture: either a constant color or a checkerboard.
#[derive(Clone, Copy, PartialEq, Eq, Structural, Debug)]
pub enum Texture {
    Constant(ConstantTexture),
    Chess(ChessTexture),
}

impl Texture {
    /// The color the texture shows at `(u, v)`.
    pub fn value(&self, u: Fx, v: Fx) -> (c: Color)
        ensures
            c@ == texture_value(*self, u@, v@),
    {
        match self {
            Texture::Constant(t) => t.value(u, v),
            Texture::Chess(t) => t.value(u, v),
        }
    }
}

} // verus!
