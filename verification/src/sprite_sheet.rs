use vstd::prelude::*;
use crate::color::{Palette, PALETTE_COLORS};

verus! {

/// One sheet of equally-sized sprites. Pixel data is stored row-major per
/// sprite as palette color indices, all sprites back to back.
#[derive(Clone, Debug)]
pub struct SpriteSheet {
    pub width: usize,
    pub height: usize,
    pub count: u8,
    pub sprites: Vec<u8>,
}

impl SpriteSheet {
    /// The stored data holds exactly `count` sprites of `width * height`
    /// color indices, every index names a palette color, and the sprite
    /// dimensions stay small enough for clipped blit arithmetic.
    pub open spec fn wf(self) -> bool {
        &&& self.sprites@.len() == self.width * self.height * self.count
        &&& self.width <= 0x8000
        &&& self.height <= 0x8000
        &&& forall|i: int|
            0 <= i < self.sprites@.len() ==> self.sprites@[i] < PALETTE_COLORS
    }

    /// Checks the invariant at run time, for data that arrives from outside.
    pub fn is_well_formed(&self) -> (b: bool)
        ensures
            b == self.wf(),
    {
        if self.width > 0x8000 || self.height > 0x8000 {
            return false;
        }
        let len = self.sprites.len();
        let area = match self.width.checked_mul(self.height) {
            Some(a) => a,
            None => {
                proof {
                    if self.count >= 1 {
                        assert(self.width * self.height * self.count >= self.width * self.height)
                            by (nonlinear_arith)
                            requires
                                self.count >= 1,
                        ;
                    }
                    assert(self.width * self.height * 0 == 0) by (nonlinear_arith);
                }
                return self.count == 0 && len == 0;
            },
        };
        let expected = match area.checked_mul(self.count as usize) {
            Some(e) => e,
            None => {
                proof {
                    assert(self.width * self.height * self.count == area * self.count)
                        by (nonlinear_arith)
                        requires
                            area == self.width * self.height,
                    ;
                }
                return false;
            },
        };
        proof {
            assert(self.width * self.height * self.count == area * self.count)
                by (nonlinear_arith)
                requires
                    area == self.width * self.height,
            ;
        }
        if len != expected {
            return false;
        }
        let mut i: usize = 0;
        while i < self.sprites.len()
            invariant
                i <= self.sprites@.len(),
                forall|j: int| 0 <= j < i ==> self.sprites@[j] < PALETTE_COLORS,
            decreases self.sprites@.len() - i,
        {
            if self.sprites[i] >= PALETTE_COLORS as u8 {
                return false;
            }
            i = i + 1;
        }
        true
    }

    /// Builds a sheet; data of the wrong size, oversized dimensions or a
    /// color index outside the palette are rejected.
    pub fn new(width: usize, height: usize, count: u8, sprites: Vec<u8>) -> (r: Option<SpriteSheet>)
        ensures
            match r {
                Some(s) => {
                    &&& s.wf()
                    &&& s.width == width
                    &&& s.height == height
                    &&& s.count == count
                    &&& s.sprites@ == sprites@
                },
                None => !(SpriteSheet { width, height, count, sprites }).wf(),
            },
    {
        let sheet = SpriteSheet { width, height, count, sprites };
        if sheet.is_well_formed() {
            Some(sheet)
        } else {
            None
        }
    }
}

/// Name for the bytes `gamercade_core`'s sprite blit produces: a pure
/// function of the starting buffer, the buffer dimensions, the sprite's
/// dimensions and data, the palette's encoded colors, the target position
/// and the transparency mask.
pub uninterp spec fn blit_of(
    buf: Seq<u8>,
    buffer_width: int,
    buffer_height: int,
    sprite_width: int,
    sprite_height: int,
    sprite: Seq<u8>,
    palette: Seq<u8>,
    x: int,
    y: int,
    transparency_mask: int,
) -> Seq<u8>;

/// The raw byte encodings of a palette's colors, back to back.
pub open spec fn palette_bytes(p: Palette) -> Seq<u8> {
    Seq::new((p.colors@.len() * 4) as nat, |i: int| p.colors@[i / 4].byte(i % 4))
}

/// Relies on gamercade_core's `PixelBuffer::draw_sprite` for the blit
/// itself, transparency handling included: it clips the sprite against the
/// buffer, and its result depends on the listed arguments alone. The length
/// of the buffer never changes.
#[verifier::external_body]
pub(crate) fn blit_sprite(
    pixels: &mut Vec<u8>,
    buffer_width: usize,
    buffer_height: usize,
    sheet: &SpriteSheet,
    sprite_index: u8,
    palette: &Palette,
    x: i32,
    y: i32,
    transparency_mask: i64,
)
    requires
        old(pixels)@.len() == buffer_width * buffer_height * 4,
        buffer_width <= 1280,
        buffer_height <= 1280,
        sheet.wf(),
        sprite_index < sheet.count,
        palette.wf(),
        -0x10_0000 <= x <= 0x10_0000,
        -0x10_0000 <= y <= 0x10_0000,
    ensures
        final(pixels)@.len() == old(pixels)@.len(),
        final(pixels)@ == blit_of(
            old(pixels)@,
            buffer_width as int,
            buffer_height as int,
            sheet.width as int,
            sheet.height as int,
            sheet.sprites@.subrange(
                sprite_index as int * (sheet.width * sheet.height) as int,
                (sprite_index as int + 1) * (sheet.width * sheet.height) as int,
            ),
            palette_bytes(*palette),
            x as int,
            y as int,
            transparency_mask as int,
        ),
{
    let colors = core::array::from_fn(|i| {
        let c = palette.colors[i];
        gamercade_core::Color::new(c.r, c.g, c.b, c.a)
    });
    let data = sheet.sprites.iter().map(|v| gamercade_core::ColorIndex(*v)).collect::<Vec<_>>().into_boxed_slice();
    let gc_sheet = gamercade_core::SpriteSheet { width: sheet.width, height: sheet.height, count: sheet.count, sprites: data };
    let mut target = gamercade_core::PixelBuffer { pixel_buffer: core::mem::take(pixels).into_boxed_slice(), buffer_width, buffer_height };
    target.draw_sprite(&gc_sheet, gamercade_core::SpriteIndex(sprite_index), &gamercade_core::Palette { colors }, x, y, transparency_mask);
    *pixels = target.pixel_buffer.into_vec();
}

} // verus!
