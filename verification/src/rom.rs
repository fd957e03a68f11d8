use vstd::prelude::*;
use vstd::arithmetic::div_mod::lemma_fundamental_div_mod_converse;
use crate::color::{Color, Palette, BYTES_PER_PIXEL, PALETTE_COLORS};
use crate::pixel_buffer::PixelBuffer;
use crate::resolution::Resolution;
use crate::sprite_sheet::SpriteSheet;

verus! {

/// Read-only asset source shared by every draw context: the display
/// resolution, the configured palettes and the sprite sheets. Drawing never
/// mutates it.
#[derive(Clone, Debug)]
pub struct Rom {
    pub resolution: Resolution,
    pub palettes: Vec<Palette>,
    pub sprite_sheets: Vec<SpriteSheet>,
}

impl Rom {
    /// Every configured palette and sheet is itself well formed.
    pub open spec fn wf(self) -> bool {
        &&& forall|i: int| 0 <= i < self.palettes@.len() ==> (#[trigger] self.palettes@[i]).wf()
        &&& forall|i: int|
            0 <= i < self.sprite_sheets@.len() ==> (#[trigger] self.sprite_sheets@[i]).wf()
    }

    /// Assembles an asset source, validating every palette and sheet.
    pub fn new(resolution: Resolution, palettes: Vec<Palette>, sprite_sheets: Vec<SpriteSheet>) -> (r: Option<Rom>)
        ensures
            match r {
                Some(rom) => {
                    &&& rom.wf()
                    &&& rom.resolution == resolution
                    &&& rom.palettes@ == palettes@
                    &&& rom.sprite_sheets@ == sprite_sheets@
                },
                None => !(Rom { resolution, palettes, sprite_sheets }).wf(),
            },
    {
        let mut i: usize = 0;
        while i < palettes.len()
            invariant
                i <= palettes@.len(),
                forall|j: int| 0 <= j < i ==> (#[trigger] palettes@[j]).wf(),
            decreases palettes@.len() - i,
        {
            if palettes[i].colors.len() != PALETTE_COLORS {
                proof {
                    let bad = Rom { resolution, palettes, sprite_sheets };
                    assert(bad.palettes@ == palettes@);
                    assert(!(#[trigger] bad.palettes@[i as int]).wf());
                    assert(!bad.wf());
                }
                return None;
            }
            i = i + 1;
        }
        let mut k: usize = 0;
        while k < sprite_sheets.len()
            invariant
                k <= sprite_sheets@.len(),
                forall|j: int| 0 <= j < k ==> (#[trigger] sprite_sheets@[j]).wf(),
            decreases sprite_sheets@.len() - k,
        {
            if !sprite_sheets[k].is_well_formed() {
                proof {
                    let bad = Rom { resolution, palettes, sprite_sheets };
                    assert(bad.sprite_sheets@ == sprite_sheets@);
                    assert(!(#[trigger] bad.sprite_sheets@[k as int]).wf());
                    assert(!bad.wf());
                }
                return None;
            }
            k = k + 1;
        }
        Some(Rom { resolution, palettes, sprite_sheets })
    }

    pub fn width(&self) -> (w: i32)
        ensures
            w == self.resolution.width_spec(),
    {
        self.resolution.width()
    }

    pub fn height(&self) -> (h: i32)
        ensures
            h == self.resolution.height_spec(),
    {
        self.resolution.height()
    }

    /// Palette lookup: `None` exactly when the index lies outside the
    /// configured set.
    pub fn palette(&self, palette_index: u8) -> (r: Option<&Palette>)
        ensures
            match r {
                Some(p) => palette_index < self.palettes@.len() && *p == self.palettes@[palette_index as int],
                None => palette_index >= self.palettes@.len(),
            },
    {
        if (palette_index as usize) < self.palettes.len() {
            Some(&self.palettes[palette_index as usize])
        } else {
            None
        }
    }

    /// Sprite sheet lookup: `None` exactly when the index lies outside the
    /// configured set.
    pub fn sprite_sheet(&self, sprite_sheet_index: u8) -> (r: Option<&SpriteSheet>)
        ensures
            match r {
                Some(s) => sprite_sheet_index < self.sprite_sheets@.len() && *s
                    == self.sprite_sheets@[sprite_sheet_index as int],
                None => sprite_sheet_index >= self.sprite_sheets@.len(),
            },
    {
        if (sprite_sheet_index as usize) < self.sprite_sheets.len() {
            Some(&self.sprite_sheets[sprite_sheet_index as usize])
        } else {
            None
        }
    }

    /// Fills the whole buffer with the resolved color; a palette or color
    /// lookup miss leaves the buffer byte-for-byte unchanged.
    pub fn clear_buffer(&self, color_index: u8, palette_index: u8, target: &mut PixelBuffer)
        requires
            self.wf(),
            old(target).wf(),
        ensures
            final(target).wf(),
            final(target).buffer_width == old(target).buffer_width,
            final(target).buffer_height == old(target).buffer_height,
            final(target).pixel_buffer@.len() == old(target).pixel_buffer@.len(),
            if palette_index < self.palettes@.len() && color_index < PALETTE_COLORS {
                forall|i: int|
                    0 <= i < final(target).pixel_buffer@.len() ==> final(target).pixel_buffer@[i]
                        == self.palettes@[palette_index as int].colors@[color_index as int].byte(i % 4)
            } else {
                final(target).pixel_buffer@ == old(target).pixel_buffer@
            },
    {
        let palette = match self.palette(palette_index) {
            Some(p) => p,
            None => {
                return;
            },
        };
        if color_index >= PALETTE_COLORS as u8 {
            return;
        }
        let color = palette.color(color_index);
        let len = target.pixel_buffer.len();
        proof {
            assert(len % 4 == 0) by {
                lemma_fundamental_div_mod_converse(
                    len as int,
                    4,
                    (target.buffer_width * target.buffer_height) as int,
                    0,
                );
            };
        }
        let mut p: usize = 0;
        while p * BYTES_PER_PIXEL < len
            invariant
                target.wf(),
                target.buffer_width == old(target).buffer_width,
                target.buffer_height == old(target).buffer_height,
                len == target.pixel_buffer@.len(),
                len % 4 == 0,
                p * 4 <= len,
                forall|i: int| 0 <= i < p * 4 ==> target.pixel_buffer@[i] == color.byte(i % 4),
                forall|i: int| p * 4 <= i < len ==> target.pixel_buffer@[i] == old(target).pixel_buffer@[i],
            decreases len - p * 4,
        {
            let base = p * BYTES_PER_PIXEL;
            proof {
                assert(len >= base + 4) by (nonlinear_arith)
                    requires
                        (base as int) < len,
                        len % 4 == 0,
                        base == 4 * (p as int),
                ;
            }
            target.pixel_buffer[base] = color.r;
            target.pixel_buffer[base + 1] = color.g;
            target.pixel_buffer[base + 2] = color.b;
            target.pixel_buffer[base + 3] = color.a;
            proof {
                assert forall|i: int| 0 <= i < (p + 1) * 4 implies target.pixel_buffer@[i]
                    == color.byte(i % 4) by {
                    if base <= i < base + 4 {
                        lemma_fundamental_div_mod_converse(i, 4, p as int, i - base);
                    }
                }
            }
            p = p + 1;
        }
    }
}

} // verus!
