//! Colors: three fixed-point channels, unclamped during arithmetic and
//! clamped to `[0, 1]` only when packed into a displayable integer.
use crate::fixed::{fx_add, fx_clamp, fx_mul, fx_sub, Fx, FX_ONE};
use vstd::prelude::*;

verus! {

/// Mathematical image of a `Color`: the raw bits of its channels.
pub struct C3 {
    pub r: int,
    pub g: int,
    pub b: int,
}

/// Channel-wise saturating sum.
pub open spec fn c3_add(a: C3, b: C3) -> C3 {
    C3 { r: fx_add(a.r, b.r), g: fx_add(a.g, b.g), b: fx_add(a.b, b.b) }
}

/// Channel-wise saturating difference.
pub open spec fn c3_sub(a: C3, b: C3) -> C3 {
    C3 { r: fx_sub(a.r, b.r), g: fx_sub(a.g, b.g), b: fx_sub(a.b, b.b) }
}

/// Every channel multiplied by the scalar `s`.
pub open spec fn c3_scale(a: C3, s: int) -> C3 {
    C3 { r: fx_mul(a.r, s), g: fx_mul(a.g, s), b: fx_mul(a.b, s) }
}

/// Channel-wise product (attenuation of one color by another).
pub open spec fn c3_mul(a: C3, b: C3) -> C3 {
    C3 { r: fx_mul(a.r, b.r), g: fx_mul(a.g, b.g), b: fx_mul(a.b, b.b) }
}

/// A channel clamped to `[0, 1]` and scaled to the byte range.
pub open spec fn channel_byte(x: int) -> int {
    fx_clamp(x, 0, FX_ONE as int) * 255 / (FX_ONE as int)
}

/// The packed `0xAARRGGBB` image of a color, with alpha fixed at 255.
pub open spec fn pack_color(c: C3) -> int {
    0xff00_0000 + channel_byte(c.r) * 0x1_0000 + channel_byte(c.g) * 0x100 + channel_byte(c.b)
}

/// A color with unclamped fixed-point channels.
#[derive(Clone, Copy, PartialEq, Eq, Structural, Debug)]
pub struct Color {
    pub r: Fx,
    pub g: Fx,
    pub b: Fx,
}

impl View for Color {
    type V = C3;

    open spec fn view(&self) -> C3 {
        C3 { r: self.r@, g: self.g@, b: self.b@ }
    }
}

/// One channel, clamped and scaled to a byte.
fn channel_to_byte(x: Fx) -> (r: u32)
    ensures
        r as int == channel_byte(x@),
        r <= 255,
{
    let c: i64 = x.clamp(Fx::zero(), Fx::one()).bits;
    ((c * 255) / FX_ONE) as u32
}

impl Color {
    /// The color with the given channels.
    pub fn new(r: Fx, g: Fx, b: Fx) -> (c: Color)
        ensures
            c@ == (C3 { r: r@, g: g@, b: b@ }),
    {
        Color { r, g, b }
    }

    /// Pack into `0xAARRGGBB`, clamping each channel to `[0, 1]` and scaling
    /// it to a byte.
    pub fn as_u32(&self) -> (r: u32)
        ensures
            r as int == pack_color(self@),
    {
        let cr: u32 = channel_to_byte(self.r);
        let cg: u32 = channel_to_byte(self.g);
        let cb: u32 = channel_to_byte(self.b);
        0xff00_0000u32 + cr * 0x1_0000 + cg * 0x100 + cb
    }

    /// Channel-wise sum.
    pub fn add(&self, other: &Color) -> (c: Color)
        ensures
            c@ == c3_add(self@, other@),
    {
        Color { r: self.r.add(other.r), g: self.g.add(other.g), b: self.b.add(other.b) }
    }

    /// Channel-wise difference.
    pub fn sub(&self, other: &Color) -> (c: Color)
        ensures
            c@ == c3_sub(self@, other@),
    {
        Color { r: self.r.sub(other.r), g: self.g.sub(other.g), b: self.b.sub(other.b) }
    }

    /// Every channel multiplied by the scalar `s`.
    pub fn scaled(&self, s: Fx) -> (c: Color)
        ensures
            c@ == c3_scale(self@, s@),
    {
        Color { r: self.r.mul(s), g: self.g.mul(s), b: self.b.mul(s) }
    }

    /// Channel-wise product: this color attenuated by `other`.
    pub fn mul(&self, other: &Color) -> (c: Color)
        ensures
            c@ == c3_mul(self@, other@),
    {
        Color { r: self.r.mul(other.r), g: self.g.mul(other.g), b: self.b.mul(other.b) }
    }
}

} // verus!
