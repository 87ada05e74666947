//! Colors with fixed-point components: each channel ranges over
//! `0..=256`, in units of 1/256 of full intensity.

use vstd::prelude::*;

use crate::atlas::Texel;

verus! {

/// Full intensity of one color channel.
pub const CHANNEL_MAX: u16 = 256;

/// An RGB color with alpha, linear, in units of 1/256.
#[derive(Clone, Copy, Debug, PartialEq, Eq, Hash, Structural)]
pub struct Rgba {
    pub r: u16,
    pub g: u16,
    pub b: u16,
    pub a: u16,
}

/// An RGB color without alpha, linear, in units of 1/256.
#[derive(Clone, Copy, Debug, PartialEq, Eq, Hash, Structural)]
pub struct Rgb {
    pub r: u16,
    pub g: u16,
    pub b: u16,
}

impl Rgba {
    pub open spec fn wf(self) -> bool {
        self.r <= 256 && self.g <= 256 && self.b <= 256 && self.a <= 256
    }

    pub open spec fn spec_fully_transparent(self) -> bool {
        self.a == 0
    }

    pub open spec fn spec_fully_opaque(self) -> bool {
        self.a >= 256
    }

    pub fn new(r: u16, g: u16, b: u16, a: u16) -> (c: Rgba)
        requires
            r <= 256,
            g <= 256,
            b <= 256,
            a <= 256,
        ensures
            c == (Rgba { r, g, b, a }),
            c.wf(),
    {
        Rgba { r, g, b, a }
    }

    pub fn white() -> (c: Rgba)
        ensures
            c == (Rgba { r: 256u16, g: 256u16, b: 256u16, a: 256u16 }),
    {
        Rgba { r: 256, g: 256, b: 256, a: 256 }
    }

    pub fn black() -> (c: Rgba)
        ensures
            c == (Rgba { r: 0u16, g: 0u16, b: 0u16, a: 256u16 }),
    {
        Rgba { r: 0, g: 0, b: 0, a: 256 }
    }

    pub fn transparent() -> (c: Rgba)
        ensures
            c == (Rgba { r: 0u16, g: 0u16, b: 0u16, a: 0u16 }),
    {
        Rgba { r: 0, g: 0, b: 0, a: 0 }
    }

    pub fn fully_transparent(&self) -> (r: bool)
        ensures
            r == self.spec_fully_transparent(),
    {
        self.a == 0
    }

    pub fn fully_opaque(&self) -> (r: bool)
        ensures
            r == self.spec_fully_opaque(),
    {
        self.a >= 256
    }

    pub fn to_rgb(&self) -> (r: Rgb)
        ensures
            r == (Rgb { r: self.r, g: self.g, b: self.b }),
    {
        Rgb { r: self.r, g: self.g, b: self.b }
    }

    /// The 8-bit texel for this color: each channel scaled to `0..=255`
    /// with rounding to nearest.
    pub fn to_texel(&self) -> (t: Texel)
        requires
            self.wf(),
        ensures
            t.0 == (self.r * 255 + 128) / 256,
            t.1 == (self.g * 255 + 128) / 256,
            t.2 == (self.b * 255 + 128) / 256,
            t.3 == (self.a * 255 + 128) / 256,
    {
        let t = (
            ((self.r as u32 * 255 + 128) / 256) as u8,
            ((self.g as u32 * 255 + 128) / 256) as u8,
            ((self.b as u32 * 255 + 128) / 256) as u8,
            ((self.a as u32 * 255 + 128) / 256) as u8,
        );
        t
    }
}

impl Rgb {
    pub fn zero() -> (c: Rgb)
        ensures
            c == (Rgb { r: 0u16, g: 0u16, b: 0u16 }),
    {
        Rgb { r: 0, g: 0, b: 0 }
    }

    pub fn with_alpha(&self, a: u16) -> (c: Rgba)
        ensures
            c == (Rgba { r: self.r, g: self.g, b: self.b, a }),
    {
        Rgba { r: self.r, g: self.g, b: self.b, a }
    }
}

} // verus!
