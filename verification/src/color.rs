//! Colours with four 8-bit channels, and their packed 32-bit form.
//!
//! A packed colour holds, from its highest byte to its lowest, alpha, red,
//! green and blue.
use crate::fixed::Fixed;
use vstd::prelude::*;

verus! {

/// The packed word of four channels.
pub open spec fn pack_argb(a: int, r: int, g: int, b: int) -> int {
    ((a * 256 + r) * 256 + g) * 256 + b
}

/// The nearest channel value to `x`.
pub open spec fn clamp_channel(x: int) -> int {
    if x < 0 {
        0
    } else if x > 255 {
        255
    } else {
        x
    }
}

/// Packs four channels into one word.
pub fn to_argb8(a: u8, r: u8, g: u8, b: u8) -> (argb: u32)
    ensures
        argb == pack_argb(a as int, r as int, g as int, b as int),
{
    let mut argb: u32 = a as u32;
    argb = argb * 256 + r as u32;
    argb = argb * 256 + g as u32;
    argb = argb * 256 + b as u32;
    argb
}

/// The whole part of a fixed-point value as a channel, clamped to `0..=255`.
pub fn channel_from_fixed(value: Fixed) -> (c: u8)
    ensures
        c == clamp_channel(value.raw as int / 65536),
{
    let whole: i32 = value.floor();
    if whole < 0 {
        0
    } else if whole > 255 {
        255
    } else {
        whole as u8
    }
}

/// A colour with alpha, red, green and blue channels.
#[derive(Clone, Copy, Debug, PartialEq, Eq, Structural)]
pub struct Color {
    pub a: u8,
    pub r: u8,
    pub g: u8,
    pub b: u8,
}

impl Color {
    /// The packed word of this colour.
    pub open spec fn packed(self) -> int {
        pack_argb(self.a as int, self.r as int, self.g as int, self.b as int)
    }

    /// The colour a packed word holds.
    pub open spec fn unpacked(color: int) -> Color {
        Color {
            a: (color / 0x100_0000) as u8,
            r: ((color / 0x1_0000) % 256) as u8,
            g: ((color / 0x100) % 256) as u8,
            b: (color % 256) as u8,
        }
    }

    pub fn to_argb8(&self) -> (argb: u32)
        ensures
            argb == self.packed(),
            Color::unpacked(argb as int) == *self,
    {
        to_argb8(self.a, self.r, self.g, self.b)
    }

    pub fn from_argb8(color: u32) -> (c: Color)
        ensures
            c == Color::unpacked(color as int),
            c.packed() == color,
    {
        Color {
            a: (color / 0x100_0000) as u8,
            r: ((color / 0x1_0000) % 256) as u8,
            g: ((color / 0x100) % 256) as u8,
            b: (color % 256) as u8,
        }
    }

    /// Channel-wise sum. No channel may pass 255.
    pub fn add(self, other: Color) -> (c: Color)
        requires
            self.a + other.a <= 255,
            self.r + other.r <= 255,
            self.g + other.g <= 255,
            self.b + other.b <= 255,
        ensures
            c.a == self.a + other.a,
            c.r == self.r + other.r,
            c.g == self.g + other.g,
            c.b == self.b + other.b,
    {
        Color {
            a: self.a + other.a,
            r: self.r + other.r,
            g: self.g + other.g,
            b: self.b + other.b,
        }
    }

    /// Adds `other` to this colour in place.
    pub fn add_assign(&mut self, other: Color)
        requires
            old(self).a + other.a <= 255,
            old(self).r + other.r <= 255,
            old(self).g + other.g <= 255,
            old(self).b + other.b <= 255,
        ensures
            final(self).a == old(self).a + other.a,
            final(self).r == old(self).r + other.r,
            final(self).g == old(self).g + other.g,
            final(self).b == old(self).b + other.b,
    {
        *self = Color {
            a: self.a + other.a,
            r: self.r + other.r,
            g: self.g + other.g,
            b: self.b + other.b,
        };
    }

    /// Channel-wise difference. No channel may fall below zero.
    pub fn sub(self, other: Color) -> (c: Color)
        requires
            self.a >= other.a,
            self.r >= other.r,
            self.g >= other.g,
            self.b >= other.b,
        ensures
            c.a == self.a - other.a,
            c.r == self.r - other.r,
            c.g == self.g - other.g,
            c.b == self.b - other.b,
    {
        Color {
            a: self.a - other.a,
            r: self.r - other.r,
            g: self.g - other.g,
            b: self.b - other.b,
        }
    }

    /// Channel-wise product. No channel may pass 255.
    pub fn mul(self, other: Color) -> (c: Color)
        requires
            self.a * other.a <= 255,
            self.r * other.r <= 255,
            self.g * other.g <= 255,
            self.b * other.b <= 255,
        ensures
            c.a == self.a * other.a,
            c.r == self.r * other.r,
            c.g == self.g * other.g,
            c.b == self.b * other.b,
    {
        Color {
            a: self.a * other.a,
            r: self.r * other.r,
            g: self.g * other.g,
            b: self.b * other.b,
        }
    }

    /// Every channel times the whole part of `other`, clamped to a channel
    /// first. No channel may pass 255.
    pub fn mul_scalar(self, other: Fixed) -> (c: Color)
        requires
            self.a * clamp_channel(other.raw as int / 65536) <= 255,
            self.r * clamp_channel(other.raw as int / 65536) <= 255,
            self.g * clamp_channel(other.raw as int / 65536) <= 255,
            self.b * clamp_channel(other.raw as int / 65536) <= 255,
        ensures
            c.a == self.a * clamp_channel(other.raw as int / 65536),
            c.r == self.r * clamp_channel(other.raw as int / 65536),
            c.g == self.g * clamp_channel(other.raw as int / 65536),
            c.b == self.b * clamp_channel(other.raw as int / 65536),
    {
        let factor: u8 = channel_from_fixed(other);
        Color {
            a: self.a * factor,
            r: self.r * factor,
            g: self.g * factor,
            b: self.b * factor,
        }
    }

    /// Every channel over the whole part of `other`, clamped to a channel
    /// first and rounded down. That whole part may not be zero.
    pub fn div_scalar(self, other: Fixed) -> (c: Color)
        requires
            clamp_channel(other.raw as int / 65536) != 0,
        ensures
            c.a == self.a as int / clamp_channel(other.raw as int / 65536),
            c.r == self.r as int / clamp_channel(other.raw as int / 65536),
            c.g == self.g as int / clamp_channel(other.raw as int / 65536),
            c.b == self.b as int / clamp_channel(other.raw as int / 65536),
    {
        let divisor: u8 = channel_from_fixed(other);
        Color {
            a: self.a / divisor,
            r: self.r / divisor,
            g: self.g / divisor,
            b: self.b / divisor,
        }
    }

    /// Channel-wise quotient, rounded down. No channel of `other` may be zero.
    pub fn div(self, other: Color) -> (c: Color)
        requires
            other.a != 0,
            other.r != 0,
            other.g != 0,
            other.b != 0,
        ensures
            c.a == self.a / other.a,
            c.r == self.r / other.r,
            c.g == self.g / other.g,
            c.b == self.b / other.b,
    {
        Color {
            a: self.a / other.a,
            r: self.r / other.r,
            g: self.g / other.g,
            b: self.b / other.b,
        }
    }
}

/// Packing and unpacking undo each other, in both directions.
pub proof fn lemma_pack_roundtrip(c: Color, word: u32)
    ensures
        Color::unpacked(c.packed()) == c,
        Color::unpacked(word as int).packed() == word,
        0 <= c.packed() <= u32::MAX,
{
}

} // verus!
