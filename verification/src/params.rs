use vstd::prelude::*;

verus! {

/// Decoded drawing parameters of one primitive call: which palette, which
/// color of it, and which sprite of which sheet. Produced from the packed
/// parameter integer that every public drawing operation receives.
#[derive(Clone, Copy, Debug, PartialEq, Eq, Structural)]
pub struct GraphicsParameters {
    pub palette_index: u8,
    pub sprite_sheet_index: u8,
    pub sprite_index: u8,
    pub color_index: u8,
}

/// Palette index: bits 0 to 7 of the packed value.
pub open spec fn spec_palette_index(bits: u32) -> u8 {
    (bits & 0xFF) as u8
}

/// Sprite sheet index: bits 8 to 15 of the packed value.
pub open spec fn spec_sprite_sheet_index(bits: u32) -> u8 {
    ((bits >> 8) & 0xFF) as u8
}

/// Sprite index: bits 16 to 23 of the packed value.
pub open spec fn spec_sprite_index(bits: u32) -> u8 {
    ((bits >> 16) & 0xFF) as u8
}

/// Color index: bits 24 to 29 of the packed value; six bits, so always
/// below `PALETTE_COLORS`.
pub open spec fn spec_color_index(bits: u32) -> u8 {
    ((bits >> 24) & 0x3F) as u8
}

/// The decoded color index always fits a palette of 64 colors.
pub proof fn lemma_color_index_in_range(bits: u32)
    ensures
        spec_color_index(bits) < 64,
{
    assert(((bits >> 24) & 0x3F) < 64) by (bit_vector);
}

/// Relies on gamercade_core's `GraphicsParameters`: `From<i32>` reinterprets
/// the value as `u32` and unpacks the palette index from bits 0-7, the sprite
/// sheet index from bits 8-15, the sprite index from bits 16-23 and the
/// six-bit color index from bits 24-29.
#[verifier::external_body]
pub fn decode_graphics_parameters(bits: i32) -> (p: GraphicsParameters)
    ensures
        p.palette_index == spec_palette_index(bits as u32),
        p.sprite_sheet_index == spec_sprite_sheet_index(bits as u32),
        p.sprite_index == spec_sprite_index(bits as u32),
        p.color_index == spec_color_index(bits as u32),
{
    let decoded = gamercade_core::GraphicsParameters::from(bits);
    GraphicsParameters {
        palette_index: decoded.palette_index.0,
        sprite_sheet_index: decoded.sprite_sheet_index.0,
        sprite_index: decoded.sprite_index.0,
        color_index: decoded.color_index.0,
    }
}

} // verus!
