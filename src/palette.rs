//! Palette colours written as `0xRRGGBB`.

use vstd::prelude::*;

verus! {

/// The red, green and blue bytes of `0xRRGGBB`; anything above the low
/// 24 bits is ignored.
pub fn hex_channels(hex: u32) -> (r: (u8, u8, u8))
    ensures
        r.0 == (hex / 0x10000) % 0x100,
        r.1 == (hex / 0x100) % 0x100,
        r.2 == hex % 0x100,
{
    let red = ((hex >> 16) & 0xff) as u8;
    let green = ((hex >> 8) & 0xff) as u8;
    let blue = (hex & 0xff) as u8;
    assert(((hex >> 16) & 0xff) == (hex / 0x10000) % 0x100) by (bit_vector);
    assert(((hex >> 8) & 0xff) == (hex / 0x100) % 0x100) by (bit_vector);
    assert((hex & 0xff) == hex % 0x100) by (bit_vector);
    (red, green, blue)
}

} // verus!
