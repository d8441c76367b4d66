//! Colours of three 8-bit channels, their saturating sum and their packing
//! into one display word.

use vstd::prelude::*;

verus! {

/// A colour of three 8-bit channels.
#[derive(Clone, Copy, Debug, PartialEq, Eq, Structural)]
pub struct Color {
    pub r: u8,
    pub g: u8,
    pub b: u8,
}

/// The sum of two channel values, held at the channel's maximum.
pub open spec fn saturated(a: u8, b: u8) -> u8 {
    if a + b > 255 {
        255u8
    } else {
        (a + b) as u8
    }
}

impl Color {
    /// The display word of the colour: red in bits 16 to 23, green in bits 8
    /// to 15, blue in bits 0 to 7, the top byte zero.
    pub open spec fn packed(self) -> int {
        self.r * 0x1_0000 + self.g * 0x100 + self.b
    }

    /// The channel-wise saturating sum.
    pub open spec fn sum(self, other: Color) -> Color {
        Color {
            r: saturated(self.r, other.r),
            g: saturated(self.g, other.g),
            b: saturated(self.b, other.b),
        }
    }

    pub fn new(r: u8, g: u8, b: u8) -> (c: Color)
        ensures
            c == (Color { r, g, b }),
    {
        Color { r, g, b }
    }

    pub fn black() -> (c: Color)
        ensures
            c == (Color { r: 0, g: 0, b: 0 }),
    {
        Color { r: 0, g: 0, b: 0 }
    }

    /// The colour of a display word. The top byte of the word is ignored.
    pub fn from_hex(hex: u32) -> (c: Color)
        ensures
            c.r == (hex / 0x1_0000) % 0x100,
            c.g == (hex / 0x100) % 0x100,
            c.b == hex % 0x100,
            c.packed() == hex % 0x100_0000,
    {
        let r: u8 = ((hex / 0x1_0000) % 0x100) as u8;
        let g: u8 = ((hex / 0x100) % 0x100) as u8;
        let b: u8 = (hex % 0x100) as u8;
        Color { r, g, b }
    }

    /// The display word of the colour.
    pub fn to_hex(&self) -> (hex: u32)
        ensures
            hex == self.packed(),
            hex < 0x100_0000,
    {
        let r: u32 = self.r as u32;
        let g: u32 = self.g as u32;
        let b: u32 = self.b as u32;
        assert((r << 16) | (g << 8) | b == r * 0x1_0000 + g * 0x100 + b) by (bit_vector)
            requires
                r < 0x100,
                g < 0x100,
                b < 0x100,
        ;
        (r << 16) | (g << 8) | b
    }
}

impl core::ops::Add for Color {
    type Output = Color;

    /// The channel-wise saturating sum.
    fn add(self, other: Color) -> (total: Color) {
        Color {
            r: self.r.saturating_add(other.r),
            g: self.g.saturating_add(other.g),
            b: self.b.saturating_add(other.b),
        }
    }
}

impl vstd::std_specs::ops::AddSpecImpl for Color {
    open spec fn obeys_add_spec() -> bool {
        true
    }

    open spec fn add_req(self, other: Color) -> bool {
        true
    }

    open spec fn add_spec(self, other: Color) -> Color {
        self.sum(other)
    }
}

/// What a pair of colours sums to does not depend on their order, black
/// changes nothing, and no channel of a sum is below that channel of a term.
pub proof fn lemma_sum_laws(a: Color, b: Color)
    ensures
        a.sum(b) == b.sum(a),
        a.sum(Color { r: 0, g: 0, b: 0 }) == a,
        a.sum(b).r >= a.r && a.sum(b).g >= a.g && a.sum(b).b >= a.b,
{
}

/// Packing loses nothing: the colour of a colour's display word is that colour.
pub proof fn lemma_packed_is_injective(a: Color, b: Color)
    requires
        a.packed() == b.packed(),
    ensures
        a == b,
{
}

} // verus!
