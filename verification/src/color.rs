//! 24-bit colors as the editor protocol delivers them.
//!
//! The protocol packs a color into the low 24 bits of an integer,
//! `0x00RRGGBB`. The shell converts this crate's `Color` into whatever the
//! drawing backend wants; nothing here depends on that backend.

use vstd::prelude::*;

verus! {

/// One opaque color, a red/green/blue triple.
#[derive(Clone, Copy, Debug, PartialEq, Eq, Structural)]
pub struct Color {
    pub r: u8,
    pub g: u8,
    pub b: u8,
}

/// The color a packed `0x00RRGGBB` protocol integer denotes.
pub open spec fn spec_color(value: u64) -> Color {
    Color {
        r: ((value & 0x00ff_0000) >> 16) as u8,
        g: ((value & 0x0000_ff00) >> 8) as u8,
        b: (value & 0x0000_00ff) as u8,
    }
}

/// Unpacks the protocol's `0x00RRGGBB` integer encoding of a color.
pub fn color_from_rgb_value(value: u64) -> (c: Color)
    ensures
        c == spec_color(value),
{
    let r = ((value & 0x00ff_0000) >> 16) as u8;
    let g = ((value & 0x0000_ff00) >> 8) as u8;
    let b = (value & 0x0000_00ff) as u8;
    proof {
        assert(((value & 0x00ff_0000) >> 16) <= 0xff && ((value & 0x0000_ff00) >> 8) <= 0xff
            && (value & 0x0000_00ff) <= 0xff) by (bit_vector);
    }
    Color { r, g, b }
}

} // verus!
