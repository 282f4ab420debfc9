//! Colours with 8-bit channels.
use vstd::prelude::*;

verus! {

/// A colour; each channel runs from 0 (none) to 255 (full).
#[derive(Clone, Copy, Debug, PartialEq, Eq, Structural)]
pub struct Rgb {
    pub r: u8,
    pub g: u8,
    pub b: u8,
}

/// The opaque 32-bit `0xAARRGGBB` word of a colour.
pub open spec fn packed(c: Rgb) -> int {
    0xff00_0000 + c.r * 0x1_0000 + c.g * 0x100 + c.b
}

/// Packs a colour into a `0xAARRGGBB` word with full alpha.
pub fn pack_color(color: &Rgb) -> (r: u32)
    ensures
        r == packed(*color),
{
    0xff00_0000u32 + (color.r as u32) * 0x1_0000 + (color.g as u32) * 0x100 + color.b as u32
}

} // verus!
