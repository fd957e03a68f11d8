use vstd::prelude::*;

verus! {

/// Bytes of one packed pixel: red, green, blue, alpha.
pub const BYTES_PER_PIXEL: usize = 4;

/// Number of colors every palette holds.
pub const PALETTE_COLORS: usize = 64;

/// One color of a palette. Immutable once constructed; its raw encoding is
/// the four bytes red, green, blue, alpha in that order.
#[derive(Clone, Copy, Debug, PartialEq, Eq, Structural)]
pub struct Color {
    pub r: u8,
    pub g: u8,
    pub b: u8,
    pub a: u8,
}

impl Color {
    /// Byte `k` of this color's raw encoding, for `0 <= k < BYTES_PER_PIXEL`.
    pub open spec fn byte(self, k: int) -> u8 {
        if k == 0 {
            self.r
        } else if k == 1 {
            self.g
        } else if k == 2 {
            self.b
        } else {
            self.a
        }
    }

    pub fn new(r: u8, g: u8, b: u8, a: u8) -> (c: Color)
        ensures
            c == (Color { r, g, b, a }),
    {
        Color { r, g, b, a }
    }
}

/// Fixed-size, ordered table of colors, addressable by color index.
#[derive(Clone, Debug)]
pub struct Palette {
    pub colors: Vec<Color>,
}

impl Palette {
    /// A palette always holds exactly `PALETTE_COLORS` colors.
    pub open spec fn wf(self) -> bool {
        self.colors@.len() == PALETTE_COLORS
    }

    /// Builds a palette; a color table of the wrong size is rejected.
    pub fn new(colors: Vec<Color>) -> (r: Option<Palette>)
        ensures
            match r {
                Some(p) => p.wf() && p.colors@ == colors@,
                None => colors@.len() != PALETTE_COLORS,
            },
    {
        if colors.len() == PALETTE_COLORS {
            Some(Palette { colors })
        } else {
            None
        }
    }

    /// Looks a color up by index. The index is assumed valid: callers only
    /// hand in indices below `PALETTE_COLORS`.
    pub fn color(&self, color_index: u8) -> (c: Color)
        requires
            self.wf(),
            color_index < PALETTE_COLORS,
        ensures
            c == self.colors@[color_index as int],
    {
        self.colors[color_index as usize]
    }
}

} // verus!
