//! 16-bit colors in the 5-6-5 layout: five bits of red, six of green and
//! five of blue, packed into one `u16` with red in the top bits.

use vstd::prelude::*;

verus! {

/// Largest red (and blue) channel value.
pub const MAX_R: u8 = 31;

/// Largest green channel value.
pub const MAX_G: u8 = 63;

/// Largest blue channel value.
pub const MAX_B: u8 = 31;

/// A packed 5-6-5 color; every `u16` is a valid color.
#[derive(Clone, Copy, Debug, PartialEq, Eq, Structural)]
pub struct Color {
    pub raw: u16,
}

/// The packed value of the channels `r`, `g`, `b`.
pub open spec fn pack(r: int, g: int, b: int) -> int {
    r * 2048 + g * 32 + b
}

impl Color {
    /// Red channel, in `0..=31`.
    pub open spec fn red(self) -> int {
        self.raw as int / 2048
    }

    /// Green channel, in `0..=63`.
    pub open spec fn green(self) -> int {
        (self.raw as int / 32) % 64
    }

    /// Blue channel, in `0..=31`.
    pub open spec fn blue(self) -> int {
        self.raw as int % 32
    }

    /// Packs three channels that fit their widths.
    pub fn new(r: u8, g: u8, b: u8) -> (c: Color)
        requires
            r <= MAX_R,
            g <= MAX_G,
            b <= MAX_B,
        ensures
            c.raw == pack(r as int, g as int, b as int),
            c.red() == r,
            c.green() == g,
            c.blue() == b,
    {
        let c = Color { raw: (r as u16) * 2048 + (g as u16) * 32 + (b as u16) };
        proof {
            lemma_unpack(r as int, g as int, b as int);
        }
        c
    }

    /// Black: all channels zero.
    pub fn black() -> (c: Color)
        ensures
            c.raw == 0,
    {
        Color { raw: 0 }
    }

    /// White: all channels at their maximum.
    pub fn white() -> (c: Color)
        ensures
            c.raw == pack(31, 63, 31),
            c.red() == 31 && c.green() == 63 && c.blue() == 31,
    {
        Color::new(MAX_R, MAX_G, MAX_B)
    }

    /// The red channel.
    pub fn r(&self) -> (r: u8)
        ensures
            r == self.red(),
            r <= MAX_R,
    {
        (self.raw / 2048) as u8
    }

    /// The green channel.
    pub fn g(&self) -> (g: u8)
        ensures
            g == self.green(),
            g <= MAX_G,
    {
        ((self.raw / 32) % 64) as u8
    }

    /// The blue channel.
    pub fn b(&self) -> (b: u8)
        ensures
            b == self.blue(),
            b <= MAX_B,
    {
        (self.raw % 32) as u8
    }
}

/// Unpacking a packed color gives back its channels.
pub proof fn lemma_unpack(r: int, g: int, b: int)
    requires
        0 <= r < 32,
        0 <= g < 64,
        0 <= b < 32,
    ensures
        0 <= pack(r, g, b) < 65536,
        pack(r, g, b) / 2048 == r,
        (pack(r, g, b) / 32) % 64 == g,
        pack(r, g, b) % 32 == b,
{
    assert(pack(r, g, b) / 2048 == r) by (nonlinear_arith)
        requires 0 <= r < 32, 0 <= g < 64, 0 <= b < 32;
    assert(pack(r, g, b) / 32 == r * 64 + g) by (nonlinear_arith)
        requires 0 <= r < 32, 0 <= g < 64, 0 <= b < 32;
    assert((r * 64 + g) % 64 == g) by (nonlinear_arith)
        requires 0 <= r < 32, 0 <= g < 64;
    assert(pack(r, g, b) % 32 == b) by (nonlinear_arith)
        requires 0 <= r < 32, 0 <= g < 64, 0 <= b < 32;
}

} // verus!
