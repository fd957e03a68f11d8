use vstd::prelude::*;
use vstd::math::{max, min};
use std::sync::Arc;
use crate::color::Color;
use crate::params::{
    decode_graphics_parameters, lemma_color_index_in_range, spec_color_index, spec_palette_index,
};
use crate::params::spec_sprite_index;
use crate::params::spec_sprite_sheet_index;
use crate::pixel_buffer::{lemma_paints_insert, lemma_paints_union, paints, PixelBuffer};
use crate::rom::Rom;
use crate::sprite_sheet::{blit_of, blit_sprite, palette_bytes};

verus! {

/// Pixels of row `y` with `lo <= x <= hi`, provided the row is on a screen
/// of the given height.
pub open spec fn row_pixels(height: int, y: int, lo: int, hi: int) -> Set<(int, int)> {
    Set::new(|p: (int, int)| 0 <= y < height && p.1 == y && lo <= p.0 <= hi)
}

/// Pixels of column `x` with `lo <= y <= hi`, provided the column is on a
/// screen of the given width.
pub open spec fn col_pixels(width: int, x: int, lo: int, hi: int) -> Set<(int, int)> {
    Set::new(|p: (int, int)| 0 <= x < width && p.0 == x && lo <= p.1 <= hi)
}

/// Pixels colored by a clipped horizontal run between `x0` and `x1` on row
/// `y`: the requested range is direction-normalized and clamped to
/// the screen; a row off screen colors nothing.
pub open spec fn hrun_points(width: int, height: int, x0: int, x1: int, y: int) -> Set<(int, int)> {
    row_pixels(height, y, max(min(x0, x1), 0), min(max(x0, x1), width - 1))
}

/// Pixels colored by a clipped vertical run between `y0` and `y1` on column
/// `x`, direction-normalized and clamped likewise.
pub open spec fn vrun_points(width: int, height: int, x: int, y0: int, y1: int) -> Set<(int, int)> {
    col_pixels(width, x, max(min(y0, y1), 0), min(max(y0, y1), height - 1))
}

/// The single pixel `(x, y)` if it lies on screen, else nothing.
pub open spec fn pixel_points(width: int, height: int, x: int, y: int) -> Set<(int, int)> {
    Set::new(|p: (int, int)| p.0 == x && p.1 == y && 0 <= x < width && 0 <= y < height)
}

/// Pixels of a rectangle outline: four independently clipped runs. The
/// right edge stands at `x + rw` and the bottom edge at `y + rh`, endpoints
/// included, as the line runs draw them.
pub open spec fn rect_points(w: int, h: int, x: int, y: int, rw: int, rh: int) -> Set<(int, int)> {
    hrun_points(w, h, x, x + rw, y).union(hrun_points(w, h, x, x + rw, y + rh)).union(
        vrun_points(w, h, x, y, y + rh),
    ).union(vrun_points(w, h, x + rw, y, y + rh))
}

/// Pixels of a filled rectangle: the block of `rw` columns and `rh` rows
/// starting at `(x, y)`, clipped to the screen; a non-positive width or
/// height colors nothing.
pub open spec fn rect_filled_points(w: int, h: int, x: int, y: int, rw: int, rh: int) -> Set<
    (int, int),
> {
    Set::new(
        |p: (int, int)|
            {
                &&& y <= p.1 < y + rh
                &&& 0 <= p.1 < h
                &&& max(x, 0) <= p.0 <= min(x + rw - 1, w - 1)
            },
    )
}

/// Pixel trace of the shallow-slope walk: step X upward, stepping Y
/// by the sign of the slope when the error term crosses zero; the first
/// off-screen coordinate ends the whole walk.
pub open spec fn low_walk(
    width: int,
    height: int,
    x: int,
    y: int,
    x1: int,
    d: int,
    dy: int,
    dx: int,
    y_adjust: int,
) -> Set<(int, int)>
    decreases x1 + 1 - x,
{
    if x > x1 {
        Set::empty()
    } else if !(0 <= x < width && 0 <= y < height) {
        Set::empty()
    } else if d > 0 {
        low_walk(
            width,
            height,
            x + 1,
            y + y_adjust,
            x1,
            d + 2 * (dy - dx),
            dy,
            dx,
            y_adjust,
        ).insert((x, y))
    } else {
        low_walk(width, height, x + 1, y, x1, d + 2 * dy, dy, dx, y_adjust).insert((x, y))
    }
}

/// Pixel trace of the steep-slope walk: the roles of the axes swapped.
pub open spec fn high_walk(
    width: int,
    height: int,
    x: int,
    y: int,
    y1: int,
    d: int,
    dx: int,
    dy: int,
    x_adjust: int,
) -> Set<(int, int)>
    decreases y1 + 1 - y,
{
    if y > y1 {
        Set::empty()
    } else if !(0 <= x < width && 0 <= y < height) {
        Set::empty()
    } else if d > 0 {
        high_walk(
            width,
            height,
            x + x_adjust,
            y + 1,
            y1,
            d + 2 * (dx - dy),
            dx,
            dy,
            x_adjust,
        ).insert((x, y))
    } else {
        high_walk(width, height, x, y + 1, y1, d + 2 * dx, dx, dy, x_adjust).insert((x, y))
    }
}

/// The shallow walk from `(x0, y0)` to `(x1, y1)`, error term initialized
/// to `2 * |dy| - dx`.
pub open spec fn low_walk_points(w: int, h: int, x0: int, y0: int, x1: int, y1: int) -> Set<
    (int, int),
> {
    let dx = x1 - x0;
    let dy = if y1 - y0 < 0 {
        y0 - y1
    } else {
        y1 - y0
    };
    let y_adjust: int = if y1 - y0 < 0 {
        -1
    } else {
        1
    };
    low_walk(w, h, x0, y0, x1, 2 * dy - dx, dy, dx, y_adjust)
}

/// The steep walk from `(x0, y0)` to `(x1, y1)`, error term initialized to
/// `2 * |dx| - dy`.
pub open spec fn high_walk_points(w: int, h: int, x0: int, y0: int, x1: int, y1: int) -> Set<
    (int, int),
> {
    let dy = y1 - y0;
    let dx = if x1 - x0 < 0 {
        x0 - x1
    } else {
        x1 - x0
    };
    let x_adjust: int = if x1 - x0 < 0 {
        -1
    } else {
        1
    };
    high_walk(w, h, x0, y0, y1, 2 * dx - dy, dx, dy, x_adjust)
}

/// Pixels of a line between two points: equal X coordinates take the
/// vertical fast path, equal Y coordinates the horizontal one; otherwise
/// the slope magnitude picks the walk, endpoints swapped so the driving
/// axis increases.
pub open spec fn line_points(w: int, h: int, x0: int, y0: int, x1: int, y1: int) -> Set<
    (int, int),
> {
    if x0 == x1 {
        vrun_points(w, h, x0, y0, y1)
    } else if y0 == y1 {
        hrun_points(w, h, x0, x1, y0)
    } else if vstd::math::abs(y1 - y0) < vstd::math::abs(x1 - x0) {
        if x0 > x1 {
            low_walk_points(w, h, x1, y1, x0, y0)
        } else {
            low_walk_points(w, h, x0, y0, x1, y1)
        }
    } else if y0 > y1 {
        high_walk_points(w, h, x1, y1, x0, y0)
    } else {
        high_walk_points(w, h, x0, y0, x1, y1)
    }
}

/// Pixel trace of the midpoint circle walk: while `px < py`, the decision
/// variable steps `py` inward when it crosses zero, `px` always advances,
/// and all eight symmetric points of the new walking point are emitted.
pub open spec fn circle_walk(
    cx: int,
    cy: int,
    f: int,
    ddf_x: int,
    ddf_y: int,
    px: int,
    py: int,
) -> Set<(int, int)>
    decreases py + 1 - px,
{
    if px >= py {
        Set::empty()
    } else {
        let py2 = if f >= 0 {
            py - 1
        } else {
            py
        };
        let ddf_y2 = if f >= 0 {
            ddf_y + 2
        } else {
            ddf_y
        };
        let f2 = if f >= 0 {
            f + ddf_y2
        } else {
            f
        };
        let px2 = px + 1;
        let ddf_x2 = ddf_x + 2;
        let f3 = f2 + ddf_x2 + 1;
        circle_walk(cx, cy, f3, ddf_x2, ddf_y2, px2, py2).insert((cx + px2, cy + py2)).insert(
            (cx - px2, cy + py2),
        ).insert((cx + px2, cy - py2)).insert((cx - px2, cy - py2)).insert(
            (cx + py2, cy + px2),
        ).insert((cx - py2, cy + px2)).insert((cx + py2, cy - px2)).insert((cx - py2, cy - px2))
    }
}

/// Pixels of a circle outline of radius `r` around `(cx, cy)`: the four
/// axis-extremal points plus the midpoint walk.
pub open spec fn circle_points(cx: int, cy: int, r: int) -> Set<(int, int)> {
    circle_walk(cx, cy, 1 - r, 0, -2 * r, 0, r).insert((cx, cy + r)).insert((cx, cy - r)).insert(
        (cx + r, cy),
    ).insert((cx - r, cy))
}

/// The circle's bounding box lies entirely on screen: all four extremal
/// points pass coordinate validation.
pub open spec fn circle_bbox_ok(w: int, h: int, x: int, y: int, r: int) -> bool {
    &&& 0 <= y - r
    &&& y + r < h
    &&& 0 <= x - r
    &&& x + r < w
}

/// Color resolution of one draw call: look the decoded palette index
/// up; on a miss the whole primitive is a no-op. The decoded color index
/// (six bits) then selects the color within the palette.
pub open spec fn resolved_color(rom: Rom, bits: u32) -> Option<Color> {
    if spec_palette_index(bits) < rom.palettes@.len() {
        Some(rom.palettes@[spec_palette_index(bits) as int].colors@[spec_color_index(bits) as int])
    } else {
        None
    }
}

/// The shallow walk over a flat slope (`dy == 0`) never steps off its row:
/// it colors exactly the pixels of the row between `x` and `x1`.
proof fn lemma_low_walk_flat(w: int, h: int, x: int, y: int, x1: int, d: int, dx: int, y_adjust: int)
    requires
        0 <= y < h,
        0 <= x,
        x1 < w,
        d <= 0,
    ensures
        low_walk(w, h, x, y, x1, d, 0, dx, y_adjust) =~= row_pixels(h, y, x, x1),
    decreases x1 + 1 - x,
{
    if x <= x1 {
        lemma_low_walk_flat(w, h, x + 1, y, x1, d, dx, y_adjust);
        assert(low_walk(w, h, x, y, x1, d, 0, dx, y_adjust) == low_walk(
            w,
            h,
            x + 1,
            y,
            x1,
            d,
            0,
            dx,
            y_adjust,
        ).insert((x, y)));
    }
}

/// The steep walk over a vertical slope (`dx == 0`) never steps off its
/// column: it colors exactly the pixels of the column between `y` and `y1`.
proof fn lemma_high_walk_flat(w: int, h: int, x: int, y: int, y1: int, d: int, dy: int, x_adjust: int)
    requires
        0 <= x < w,
        0 <= y,
        y1 < h,
        d <= 0,
    ensures
        high_walk(w, h, x, y, y1, d, 0, dy, x_adjust) =~= col_pixels(w, x, y, y1),
    decreases y1 + 1 - y,
{
    if y <= y1 {
        lemma_high_walk_flat(w, h, x, y + 1, y1, d, dy, x_adjust);
        assert(high_walk(w, h, x, y, y1, d, 0, dy, x_adjust) == high_walk(
            w,
            h,
            x,
            y + 1,
            y1,
            d,
            0,
            dy,
            x_adjust,
        ).insert((x, y)));
    }
}

/// The horizontal fast path and the general line walk color the same pixel
/// set when both endpoints of an axis-aligned line lie on screen. (Off
/// screen the two policies differ: the run clips and continues, the walk
/// stops at the first invalid pixel.)
pub proof fn lemma_horizontal_fast_path_matches_walk(w: int, h: int, x0: int, x1: int, y: int)
    requires
        0 <= y < h,
        0 <= x0 < w,
        0 <= x1 < w,
        x0 < x1,
    ensures
        low_walk_points(w, h, x0, y, x1, y) == hrun_points(w, h, x0, x1, y),
{
    lemma_low_walk_flat(w, h, x0, y, x1, -(x1 - x0), x1 - x0, 1);
    assert(hrun_points(w, h, x0, x1, y) =~= row_pixels(h, y, x0, x1));
}

/// The vertical fast path and the general line walk color the same pixel
/// set when both endpoints of an axis-aligned line lie on screen.
pub proof fn lemma_vertical_fast_path_matches_walk(w: int, h: int, x: int, y0: int, y1: int)
    requires
        0 <= x < w,
        0 <= y0 < h,
        0 <= y1 < h,
        y0 < y1,
    ensures
        high_walk_points(w, h, x, y0, x, y1) == vrun_points(w, h, x, y0, y1),
{
    lemma_high_walk_flat(w, h, x, y0, y1, -(y1 - y0), y1 - y0, 1);
    assert(vrun_points(w, h, x, y0, y1) =~= col_pixels(w, x, y0, y1));
}

/// Validated X screen coordinate: only the coordinate validator produces
/// one, and its value is below the screen width.
#[derive(Clone, Copy, PartialEq, Eq, PartialOrd, Ord)]
pub struct XCord(pub usize);

/// Validated Y screen coordinate, below the screen height.
#[derive(Clone, Copy, PartialEq, Eq, PartialOrd, Ord)]
pub struct YCord(pub usize);

/// Orchestrates one frame's drawing: owns the frame's pixel buffer
/// exclusively and borrows the shared, read-only asset source.
#[derive(Clone)]
pub struct DrawContext {
    pub frame_buffer: PixelBuffer,
    pub rom: Arc<Rom>,
}

impl DrawContext {
    /// The buffer matches the asset source's screen dimensions, and the
    /// asset source itself is well formed.
    pub open spec fn wf(self) -> bool {
        &&& self.frame_buffer.wf()
        &&& self.frame_buffer.buffer_width == self.rom.resolution.width_spec()
        &&& self.frame_buffer.buffer_height == self.rom.resolution.height_spec()
        &&& self.rom.wf()
    }

    /// Drawing never changes the asset source, the screen dimensions or the
    /// buffer's length.
    pub open spec fn same_frame(self, other: DrawContext) -> bool {
        &&& other.rom == self.rom
        &&& other.frame_buffer.buffer_width == self.frame_buffer.buffer_width
        &&& other.frame_buffer.buffer_height == self.frame_buffer.buffer_height
        &&& other.frame_buffer.pixel_buffer@.len() == self.frame_buffer.pixel_buffer@.len()
    }

    pub fn new(rom: Arc<Rom>) -> (ctx: DrawContext)
        requires
            rom.wf(),
        ensures
            ctx.wf(),
            ctx.rom == rom,
            forall|i: int|
                0 <= i < ctx.frame_buffer.pixel_buffer@.len()
                    ==> ctx.frame_buffer.pixel_buffer@[i] == 0u8,
    {
        let frame_buffer = PixelBuffer::init_from_resolution(&rom.resolution);
        DrawContext { frame_buffer, rom }
    }

    fn width(&self) -> (w: i32)
        ensures
            w == self.rom.resolution.width_spec(),
    {
        self.rom.width()
    }

    fn height(&self) -> (h: i32)
        ensures
            h == self.rom.resolution.height_spec(),
    {
        self.rom.height()
    }

    /// Converts a signed X coordinate into a validated one, or rejects it:
    /// success exactly when `0 <= x < width`.
    fn validate_x(&self, x: i32) -> (r: Result<XCord, &'static str>)
        ensures
            match r {
                Ok(c) => 0 <= x && x < self.rom.resolution.width_spec() && c.0 == x,
                Err(_) => !(0 <= x && x < self.rom.resolution.width_spec()),
            },
    {
        if x >= 0 && x < self.width() {
            Ok(XCord(x as usize))
        } else {
            Err("invalid X screen coordinate")
        }
    }

    /// Converts a signed Y coordinate into a validated one, or rejects it:
    /// success exactly when `0 <= y < height`.
    fn validate_y(&self, y: i32) -> (r: Result<YCord, &'static str>)
        ensures
            match r {
                Ok(c) => 0 <= y && y < self.rom.resolution.height_spec() && c.0 == y,
                Err(_) => !(0 <= y && y < self.rom.resolution.height_spec()),
            },
    {
        if y >= 0 && y < self.height() {
            Ok(YCord(y as usize))
        } else {
            Err("invalid Y screen coordinate")
        }
    }

    /// Writes one validated pixel; bounds hold by construction.
    fn set_pixel_safe(&mut self, x: XCord, y: YCord, color: Color)
        requires
            old(self).wf(),
            x.0 < old(self).frame_buffer.buffer_width,
            y.0 < old(self).frame_buffer.buffer_height,
        ensures
            final(self).wf(),
            old(self).same_frame(*final(self)),
            paints(
                old(self).frame_buffer.pixel_buffer@,
                final(self).frame_buffer.pixel_buffer@,
                old(self).frame_buffer.buffer_width as int,
                Set::<(int, int)>::empty().insert((x.0 as int, y.0 as int)),
                color,
            ),
    {
        self.frame_buffer.write_pixel(x.0, y.0, color);
    }

    /// Horizontal run: clips once, then writes the color at every position
    /// of the clamped range, both endpoints included.
    fn draw_line_horizontal(&mut self, x0: i64, x1: i64, y: i64, color: Color)
        requires
            old(self).wf(),
        ensures
            final(self).wf(),
            old(self).same_frame(*final(self)),
            paints(
                old(self).frame_buffer.pixel_buffer@,
                final(self).frame_buffer.pixel_buffer@,
                old(self).frame_buffer.buffer_width as int,
                hrun_points(
                    old(self).frame_buffer.buffer_width as int,
                    old(self).frame_buffer.buffer_height as int,
                    x0 as int,
                    x1 as int,
                    y as int,
                ),
                color,
            ),
    {
        let ghost w_spec = old(self).frame_buffer.buffer_width as int;
        let ghost h_spec = old(self).frame_buffer.buffer_height as int;
        let w = self.width() as i64;
        let h = self.height() as i64;
        if y < 0 || y >= h {
            return;
        }
        let (start, end) = if x0 < x1 {
            (x0, x1)
        } else {
            (x1, x0)
        };
        if start > w - 1 || end < 0 {
            return;
        }
        let lo = (if start < 0 {
            0
        } else {
            start
        }) as usize;
        let hi = (if end > w - 1 {
            w - 1
        } else {
            end
        }) as usize;
        let yy = y as usize;
        let ghost start_buf = self.frame_buffer.pixel_buffer@;
        let mut px = lo;
        while px <= hi
            invariant
                self.wf(),
                old(self).same_frame(*self),
                start_buf == old(self).frame_buffer.pixel_buffer@,
                w_spec == self.frame_buffer.buffer_width as int,
                h_spec == self.frame_buffer.buffer_height as int,
                lo <= px <= hi + 1,
                hi < self.frame_buffer.buffer_width,
                0 <= (y as int) < h_spec,
                yy == y as int,
                paints(
                    start_buf,
                    self.frame_buffer.pixel_buffer@,
                    w_spec,
                    row_pixels(h_spec, y as int, lo as int, px as int - 1),
                    color,
                ),
            decreases hi + 1 - px,
        {
            let ghost prev = self.frame_buffer.pixel_buffer@;
            self.set_pixel_safe(XCord(px), YCord(yy), color);
            proof {
                lemma_paints_union(
                    start_buf,
                    prev,
                    self.frame_buffer.pixel_buffer@,
                    w_spec,
                    row_pixels(h_spec, y as int, lo as int, px as int - 1),
                    Set::<(int, int)>::empty().insert((px as int, y as int)),
                    color,
                );
                assert(row_pixels(h_spec, y as int, lo as int, px as int - 1).union(
                    Set::<(int, int)>::empty().insert((px as int, y as int)),
                ) =~= row_pixels(h_spec, y as int, lo as int, px as int));
            }
            px = px + 1;
        }
        proof {
            assert(lo as int == max(min(x0 as int, x1 as int), 0));
            assert(hi as int == min(max(x0 as int, x1 as int), w_spec - 1));
        }
    }

    /// Vertical run: clips once, then writes the color at every row of the
    /// clamped range, both endpoints included.
    fn draw_line_vertical(&mut self, x: i64, y0: i64, y1: i64, color: Color)
        requires
            old(self).wf(),
        ensures
            final(self).wf(),
            old(self).same_frame(*final(self)),
            paints(
                old(self).frame_buffer.pixel_buffer@,
                final(self).frame_buffer.pixel_buffer@,
                old(self).frame_buffer.buffer_width as int,
                vrun_points(
                    old(self).frame_buffer.buffer_width as int,
                    old(self).frame_buffer.buffer_height as int,
                    x as int,
                    y0 as int,
                    y1 as int,
                ),
                color,
            ),
    {
        let ghost w_spec = old(self).frame_buffer.buffer_width as int;
        let ghost h_spec = old(self).frame_buffer.buffer_height as int;
        let w = self.width() as i64;
        let h = self.height() as i64;
        if x < 0 || x >= w {
            return;
        }
        let (start, end) = if y0 < y1 {
            (y0, y1)
        } else {
            (y1, y0)
        };
        if start > h - 1 || end < 0 {
            return;
        }
        let lo = (if start < 0 {
            0
        } else {
            start
        }) as usize;
        let hi = (if end > h - 1 {
            h - 1
        } else {
            end
        }) as usize;
        let xx = x as usize;
        let ghost start_buf = self.frame_buffer.pixel_buffer@;
        let mut py = lo;
        while py <= hi
            invariant
                self.wf(),
                old(self).same_frame(*self),
                start_buf == old(self).frame_buffer.pixel_buffer@,
                w_spec == self.frame_buffer.buffer_width as int,
                h_spec == self.frame_buffer.buffer_height as int,
                lo <= py <= hi + 1,
                hi < self.frame_buffer.buffer_height,
                0 <= (x as int) < w_spec,
                xx == x as int,
                paints(
                    start_buf,
                    self.frame_buffer.pixel_buffer@,
                    w_spec,
                    col_pixels(w_spec, x as int, lo as int, py as int - 1),
                    color,
                ),
            decreases hi + 1 - py,
        {
            let ghost prev = self.frame_buffer.pixel_buffer@;
            self.set_pixel_safe(XCord(xx), YCord(py), color);
            proof {
                lemma_paints_union(
                    start_buf,
                    prev,
                    self.frame_buffer.pixel_buffer@,
                    w_spec,
                    col_pixels(w_spec, x as int, lo as int, py as int - 1),
                    Set::<(int, int)>::empty().insert((x as int, py as int)),
                    color,
                );
                assert(col_pixels(w_spec, x as int, lo as int, py as int - 1).union(
                    Set::<(int, int)>::empty().insert((x as int, py as int)),
                ) =~= col_pixels(w_spec, x as int, lo as int, py as int));
            }
            py = py + 1;
        }
        proof {
            assert(lo as int == max(min(y0 as int, y1 as int), 0));
            assert(hi as int == min(max(y0 as int, y1 as int), h_spec - 1));
        }
    }

    /// Resolves the packed parameters to a concrete color, or `None` on a
    /// palette lookup miss.
    fn resolve_color(&self, graphics_parameters: i32) -> (r: Option<Color>)
        requires
            self.wf(),
        ensures
            r == resolved_color(*self.rom, graphics_parameters as u32),
    {
        let p = decode_graphics_parameters(graphics_parameters);
        proof {
            lemma_color_index_in_range(graphics_parameters as u32);
        }
        match self.rom.palette(p.palette_index) {
            Some(palette) => Some(palette.color(p.color_index)),
            None => None,
        }
    }

    /// Sets one pixel: both coordinates are validated and
    /// an invalid one skips the write; a palette miss draws nothing.
    pub fn set_pixel(&mut self, graphics_parameters: i32, x: i32, y: i32)
        requires
            old(self).wf(),
        ensures
            final(self).wf(),
            old(self).same_frame(*final(self)),
            match resolved_color(*old(self).rom, graphics_parameters as u32) {
                Some(c) => paints(
                    old(self).frame_buffer.pixel_buffer@,
                    final(self).frame_buffer.pixel_buffer@,
                    old(self).frame_buffer.buffer_width as int,
                    pixel_points(
                        old(self).frame_buffer.buffer_width as int,
                        old(self).frame_buffer.buffer_height as int,
                        x as int,
                        y as int,
                    ),
                    c,
                ),
                None => final(self).frame_buffer.pixel_buffer@ == old(
                    self,
                ).frame_buffer.pixel_buffer@,
            },
            !(0 <= x && x < old(self).frame_buffer.buffer_width && 0 <= y && y < old(
                self,
            ).frame_buffer.buffer_height) ==> final(self).frame_buffer.pixel_buffer@ == old(
                self,
            ).frame_buffer.pixel_buffer@,
    {
        let vx = self.validate_x(x);
        let vy = self.validate_y(y);
        if let (Ok(xc), Ok(yc)) = (vx, vy) {
            if let Some(color) = self.resolve_color(graphics_parameters) {
                self.set_pixel_safe(xc, yc, color);
                proof {
                    assert(Set::<(int, int)>::empty().insert((x as int, y as int)) =~= pixel_points(
                        old(self).frame_buffer.buffer_width as int,
                        old(self).frame_buffer.buffer_height as int,
                        x as int,
                        y as int,
                    ));
                }
            }
        } else {
            proof {
                let pts = pixel_points(
                    old(self).frame_buffer.buffer_width as int,
                    old(self).frame_buffer.buffer_height as int,
                    x as int,
                    y as int,
                );
                assert(forall|p: (int, int)| !pts.contains(p));
            }
        }
        proof {
            if !(0 <= x && x < old(self).frame_buffer.buffer_width && 0 <= y && y < old(
                self,
            ).frame_buffer.buffer_height) {
                assert(self.frame_buffer.pixel_buffer@ =~= old(self).frame_buffer.pixel_buffer@);
            }
        }
    }

    /// Fills the whole screen with the resolved color;
    /// a palette miss leaves the buffer byte-for-byte unchanged.
    pub fn clear_screen(&mut self, graphics_parameters: i32)
        requires
            old(self).wf(),
        ensures
            final(self).wf(),
            old(self).same_frame(*final(self)),
            match resolved_color(*old(self).rom, graphics_parameters as u32) {
                Some(c) => forall|i: int|
                    0 <= i < final(self).frame_buffer.pixel_buffer@.len()
                        ==> final(self).frame_buffer.pixel_buffer@[i] == c.byte(i % 4),
                None => final(self).frame_buffer.pixel_buffer@ == old(
                    self,
                ).frame_buffer.pixel_buffer@,
            },
    {
        let p = decode_graphics_parameters(graphics_parameters);
        proof {
            lemma_color_index_in_range(graphics_parameters as u32);
        }
        self.rom.clear_buffer(p.color_index, p.palette_index, &mut self.frame_buffer);
    }

    /// Shallow-slope walk: iterates over X with the incremental-error
    /// recurrence, validating each pixel; the first invalid coordinate ends
    /// the walk.
    fn draw_line_low(&mut self, x0: i64, y0: i64, x1: i64, y1: i64, color: Color)
        requires
            old(self).wf(),
            x0 < x1,
            vstd::math::abs(y1 as int - y0 as int) < x1 - x0,
            -0x1_0000_0000 <= x0 <= 0x1_0000_0000,
            -0x1_0000_0000 <= y0 <= 0x1_0000_0000,
            -0x1_0000_0000 <= x1 <= 0x1_0000_0000,
            -0x1_0000_0000 <= y1 <= 0x1_0000_0000,
        ensures
            final(self).wf(),
            old(self).same_frame(*final(self)),
            paints(
                old(self).frame_buffer.pixel_buffer@,
                final(self).frame_buffer.pixel_buffer@,
                old(self).frame_buffer.buffer_width as int,
                low_walk_points(
                    old(self).frame_buffer.buffer_width as int,
                    old(self).frame_buffer.buffer_height as int,
                    x0 as int,
                    y0 as int,
                    x1 as int,
                    y1 as int,
                ),
                color,
            ),
    {
        let ghost w_spec = old(self).frame_buffer.buffer_width as int;
        let ghost h_spec = old(self).frame_buffer.buffer_height as int;
        let ghost full = low_walk_points(w_spec, h_spec, x0 as int, y0 as int, x1 as int, y1 as int);
        let w = self.width() as i64;
        let h = self.height() as i64;
        let dx = x1 - x0;
        let mut dy = y1 - y0;
        let y_adjust: i64 = if dy < 0 {
            dy = -dy;
            -1
        } else {
            1
        };
        let mut d = 2 * dy - dx;
        let mut xx = x0;
        let mut yy = y0;
        let ghost start_buf = self.frame_buffer.pixel_buffer@;
        let ghost mut pts = Set::<(int, int)>::empty();
        while xx <= x1
            invariant
                self.wf(),
                old(self).same_frame(*self),
                start_buf == old(self).frame_buffer.pixel_buffer@,
                w_spec == self.frame_buffer.buffer_width as int,
                h_spec == self.frame_buffer.buffer_height as int,
                w == w_spec,
                h == h_spec,
                dx == x1 - x0,
                0 <= dy < dx,
                dy == vstd::math::abs(y1 as int - y0 as int),
                y_adjust == 1 || y_adjust == -1,
                x0 <= xx <= x1 + 1,
                y0 - (xx - x0) <= yy <= y0 + (xx - x0),
                -2 * dx <= d <= 2 * dy,
                -0x1_0000_0000 <= x0 <= 0x1_0000_0000,
                -0x1_0000_0000 <= y0 <= 0x1_0000_0000,
                -0x1_0000_0000 <= x1 <= 0x1_0000_0000,
                paints(start_buf, self.frame_buffer.pixel_buffer@, w_spec, pts, color),
                full == low_walk_points(
                    w_spec,
                    h_spec,
                    x0 as int,
                    y0 as int,
                    x1 as int,
                    y1 as int,
                ),
                full == pts.union(
                    low_walk(
                        w_spec,
                        h_spec,
                        xx as int,
                        yy as int,
                        x1 as int,
                        d as int,
                        dy as int,
                        dx as int,
                        y_adjust as int,
                    ),
                ),
            decreases x1 + 1 - xx,
        {
            if xx >= 0 && xx < w && yy >= 0 && yy < h {
                let ghost prev = self.frame_buffer.pixel_buffer@;
                let ghost d_old = d as int;
                let ghost yy_old = yy as int;
                let ghost mut pts_before = pts;
                self.set_pixel_safe(XCord(xx as usize), YCord(yy as usize), color);
                proof {
                    lemma_paints_union(
                        start_buf,
                        prev,
                        self.frame_buffer.pixel_buffer@,
                        w_spec,
                        pts,
                        Set::<(int, int)>::empty().insert((xx as int, yy as int)),
                        color,
                    );
                    assert(pts.union(Set::<(int, int)>::empty().insert((xx as int, yy as int)))
                        =~= pts.insert((xx as int, yy as int)));
                    pts_before = pts;
                    pts = pts.insert((xx as int, yy as int));
                }
                if d > 0 {
                    yy = yy + y_adjust;
                    d = d + 2 * (dy - dx);
                } else {
                    d = d + 2 * dy;
                }
                proof {
                    let rest = low_walk(
                        w_spec,
                        h_spec,
                        xx as int + 1,
                        yy as int,
                        x1 as int,
                        d as int,
                        dy as int,
                        dx as int,
                        y_adjust as int,
                    );
                    assert(low_walk(
                        w_spec,
                        h_spec,
                        xx as int,
                        yy_old,
                        x1 as int,
                        d_old,
                        dy as int,
                        dx as int,
                        y_adjust as int,
                    ) == rest.insert((xx as int, yy_old)));
                    assert(pts_before.union(rest.insert((xx as int, yy_old))) =~= pts.union(
                        rest,
                    ));
                }
                xx = xx + 1;
            } else {
                proof {
                    assert(low_walk(
                        w_spec,
                        h_spec,
                        xx as int,
                        yy as int,
                        x1 as int,
                        d as int,
                        dy as int,
                        dx as int,
                        y_adjust as int,
                    ) =~= Set::<(int, int)>::empty());
                    assert(full =~= pts);
                }
                return;
            }
        }
        proof {
            assert(low_walk(
                w_spec,
                h_spec,
                xx as int,
                yy as int,
                x1 as int,
                d as int,
                dy as int,
                dx as int,
                y_adjust as int,
            ) =~= Set::<(int, int)>::empty());
            assert(full =~= pts);
        }
    }

    /// Steep-slope walk: iterates over Y with the roles of the axes
    /// swapped; the first invalid coordinate ends the walk.
    fn draw_line_high(&mut self, x0: i64, y0: i64, x1: i64, y1: i64, color: Color)
        requires
            old(self).wf(),
            y0 < y1,
            vstd::math::abs(x1 as int - x0 as int) <= y1 - y0,
            -0x1_0000_0000 <= x0 <= 0x1_0000_0000,
            -0x1_0000_0000 <= y0 <= 0x1_0000_0000,
            -0x1_0000_0000 <= x1 <= 0x1_0000_0000,
            -0x1_0000_0000 <= y1 <= 0x1_0000_0000,
        ensures
            final(self).wf(),
            old(self).same_frame(*final(self)),
            paints(
                old(self).frame_buffer.pixel_buffer@,
                final(self).frame_buffer.pixel_buffer@,
                old(self).frame_buffer.buffer_width as int,
                high_walk_points(
                    old(self).frame_buffer.buffer_width as int,
                    old(self).frame_buffer.buffer_height as int,
                    x0 as int,
                    y0 as int,
                    x1 as int,
                    y1 as int,
                ),
                color,
            ),
    {
        let ghost w_spec = old(self).frame_buffer.buffer_width as int;
        let ghost h_spec = old(self).frame_buffer.buffer_height as int;
        let ghost full = high_walk_points(
            w_spec,
            h_spec,
            x0 as int,
            y0 as int,
            x1 as int,
            y1 as int,
        );
        let w = self.width() as i64;
        let h = self.height() as i64;
        let dy = y1 - y0;
        let mut dx = x1 - x0;
        let x_adjust: i64 = if dx < 0 {
            dx = -dx;
            -1
        } else {
            1
        };
        let mut d = 2 * dx - dy;
        let mut xx = x0;
        let mut yy = y0;
        let ghost start_buf = self.frame_buffer.pixel_buffer@;
        let ghost mut pts = Set::<(int, int)>::empty();
        while yy <= y1
            invariant
                self.wf(),
                old(self).same_frame(*self),
                start_buf == old(self).frame_buffer.pixel_buffer@,
                w_spec == self.frame_buffer.buffer_width as int,
                h_spec == self.frame_buffer.buffer_height as int,
                w == w_spec,
                h == h_spec,
                dy == y1 - y0,
                0 <= dx <= dy,
                dx == vstd::math::abs(x1 as int - x0 as int),
                x_adjust == 1 || x_adjust == -1,
                y0 <= yy <= y1 + 1,
                x0 - (yy - y0) <= xx <= x0 + (yy - y0),
                -2 * dy <= d <= 2 * dx,
                -0x1_0000_0000 <= x0 <= 0x1_0000_0000,
                -0x1_0000_0000 <= y0 <= 0x1_0000_0000,
                -0x1_0000_0000 <= y1 <= 0x1_0000_0000,
                paints(start_buf, self.frame_buffer.pixel_buffer@, w_spec, pts, color),
                full == high_walk_points(
                    w_spec,
                    h_spec,
                    x0 as int,
                    y0 as int,
                    x1 as int,
                    y1 as int,
                ),
                full == pts.union(
                    high_walk(
                        w_spec,
                        h_spec,
                        xx as int,
                        yy as int,
                        y1 as int,
                        d as int,
                        dx as int,
                        dy as int,
                        x_adjust as int,
                    ),
                ),
            decreases y1 + 1 - yy,
        {
            if xx >= 0 && xx < w && yy >= 0 && yy < h {
                let ghost prev = self.frame_buffer.pixel_buffer@;
                let ghost d_old = d as int;
                let ghost xx_old = xx as int;
                let ghost mut pts_before = pts;
                self.set_pixel_safe(XCord(xx as usize), YCord(yy as usize), color);
                proof {
                    lemma_paints_union(
                        start_buf,
                        prev,
                        self.frame_buffer.pixel_buffer@,
                        w_spec,
                        pts,
                        Set::<(int, int)>::empty().insert((xx as int, yy as int)),
                        color,
                    );
                    assert(pts.union(Set::<(int, int)>::empty().insert((xx as int, yy as int)))
                        =~= pts.insert((xx as int, yy as int)));
                    pts_before = pts;
                    pts = pts.insert((xx as int, yy as int));
                }
                if d > 0 {
                    xx = xx + x_adjust;
                    d = d + 2 * (dx - dy);
                } else {
                    d = d + 2 * dx;
                }
                proof {
                    let rest = high_walk(
                        w_spec,
                        h_spec,
                        xx as int,
                        yy as int + 1,
                        y1 as int,
                        d as int,
                        dx as int,
                        dy as int,
                        x_adjust as int,
                    );
                    assert(high_walk(
                        w_spec,
                        h_spec,
                        xx_old,
                        yy as int,
                        y1 as int,
                        d_old,
                        dx as int,
                        dy as int,
                        x_adjust as int,
                    ) == rest.insert((xx_old, yy as int)));
                    assert(pts_before.union(rest.insert((xx_old, yy as int))) =~= pts.union(
                        rest,
                    ));
                }
                yy = yy + 1;
            } else {
                proof {
                    assert(high_walk(
                        w_spec,
                        h_spec,
                        xx as int,
                        yy as int,
                        y1 as int,
                        d as int,
                        dx as int,
                        dy as int,
                        x_adjust as int,
                    ) =~= Set::<(int, int)>::empty());
                    assert(full =~= pts);
                }
                return;
            }
        }
        proof {
            assert(high_walk(
                w_spec,
                h_spec,
                xx as int,
                yy as int,
                y1 as int,
                d as int,
                dx as int,
                dy as int,
                x_adjust as int,
            ) =~= Set::<(int, int)>::empty());
            assert(full =~= pts);
        }
    }

    /// Draws a colored line between two points: axis-aligned
    /// endpoints take the clipped fast paths, every other slope the
    /// incremental walk with its early-exit policy; a palette miss draws
    /// nothing.
    pub fn line(&mut self, graphics_parameters: i32, x0: i32, y0: i32, x1: i32, y1: i32)
        requires
            old(self).wf(),
        ensures
            final(self).wf(),
            old(self).same_frame(*final(self)),
            match resolved_color(*old(self).rom, graphics_parameters as u32) {
                Some(c) => paints(
                    old(self).frame_buffer.pixel_buffer@,
                    final(self).frame_buffer.pixel_buffer@,
                    old(self).frame_buffer.buffer_width as int,
                    line_points(
                        old(self).frame_buffer.buffer_width as int,
                        old(self).frame_buffer.buffer_height as int,
                        x0 as int,
                        y0 as int,
                        x1 as int,
                        y1 as int,
                    ),
                    c,
                ),
                None => final(self).frame_buffer.pixel_buffer@ == old(
                    self,
                ).frame_buffer.pixel_buffer@,
            },
    {
        let color = match self.resolve_color(graphics_parameters) {
            Some(c) => c,
            None => {
                return;
            },
        };
        if x0 == x1 {
            self.draw_line_vertical(x0 as i64, y0 as i64, y1 as i64, color);
            return;
        }
        if y0 == y1 {
            self.draw_line_horizontal(x0 as i64, x1 as i64, y0 as i64, color);
            return;
        }
        let dxv = x1 as i64 - x0 as i64;
        let dyv = y1 as i64 - y0 as i64;
        let dx_abs = if dxv < 0 {
            -dxv
        } else {
            dxv
        };
        let dy_abs = if dyv < 0 {
            -dyv
        } else {
            dyv
        };
        if dy_abs < dx_abs {
            if x0 > x1 {
                self.draw_line_low(x1 as i64, y1 as i64, x0 as i64, y0 as i64, color);
            } else {
                self.draw_line_low(x0 as i64, y0 as i64, x1 as i64, y1 as i64, color);
            }
        } else if y0 > y1 {
            self.draw_line_high(x1 as i64, y1 as i64, x0 as i64, y0 as i64, color);
        } else {
            self.draw_line_high(x0 as i64, y0 as i64, x1 as i64, y1 as i64, color);
        }
    }

    /// Rectangle outline: four independently clipped runs, the
    /// right and bottom edges at `x + width` and `y + height`.
    pub fn rect(&mut self, graphics_parameters: i32, x: i32, y: i32, width: i32, height: i32)
        requires
            old(self).wf(),
        ensures
            final(self).wf(),
            old(self).same_frame(*final(self)),
            match resolved_color(*old(self).rom, graphics_parameters as u32) {
                Some(c) => paints(
                    old(self).frame_buffer.pixel_buffer@,
                    final(self).frame_buffer.pixel_buffer@,
                    old(self).frame_buffer.buffer_width as int,
                    rect_points(
                        old(self).frame_buffer.buffer_width as int,
                        old(self).frame_buffer.buffer_height as int,
                        x as int,
                        y as int,
                        width as int,
                        height as int,
                    ),
                    c,
                ),
                None => final(self).frame_buffer.pixel_buffer@ == old(
                    self,
                ).frame_buffer.pixel_buffer@,
            },
    {
        let ghost w_spec = old(self).frame_buffer.buffer_width as int;
        let ghost h_spec = old(self).frame_buffer.buffer_height as int;
        let color = match self.resolve_color(graphics_parameters) {
            Some(c) => c,
            None => {
                return;
            },
        };
        let x0 = x as i64;
        let y0 = y as i64;
        let x1 = x as i64 + width as i64;
        let y1 = y as i64 + height as i64;
        let ghost b0 = self.frame_buffer.pixel_buffer@;
        self.draw_line_horizontal(x0, x1, y0, color);
        let ghost b1 = self.frame_buffer.pixel_buffer@;
        self.draw_line_horizontal(x0, x1, y1, color);
        let ghost b2 = self.frame_buffer.pixel_buffer@;
        self.draw_line_vertical(x0, y0, y1, color);
        let ghost b3 = self.frame_buffer.pixel_buffer@;
        self.draw_line_vertical(x1, y0, y1, color);
        proof {
            let top = hrun_points(w_spec, h_spec, x0 as int, x1 as int, y0 as int);
            let bottom = hrun_points(w_spec, h_spec, x0 as int, x1 as int, y1 as int);
            let left = vrun_points(w_spec, h_spec, x0 as int, y0 as int, y1 as int);
            let right = vrun_points(w_spec, h_spec, x1 as int, y0 as int, y1 as int);
            lemma_paints_union(b0, b1, b2, w_spec, top, bottom, color);
            lemma_paints_union(b0, b2, b3, w_spec, top.union(bottom), left, color);
            lemma_paints_union(
                b0,
                b3,
                self.frame_buffer.pixel_buffer@,
                w_spec,
                top.union(bottom).union(left),
                right,
                color,
            );
        }
    }

    /// Filled rectangle: colors exactly the block of
    /// `width` columns and `height` rows starting at `(x, y)`, clipped;
    /// a non-positive width or height colors nothing.
    pub fn rect_filled(&mut self, graphics_parameters: i32, x: i32, y: i32, width: i32, height: i32)
        requires
            old(self).wf(),
        ensures
            final(self).wf(),
            old(self).same_frame(*final(self)),
            match resolved_color(*old(self).rom, graphics_parameters as u32) {
                Some(c) => paints(
                    old(self).frame_buffer.pixel_buffer@,
                    final(self).frame_buffer.pixel_buffer@,
                    old(self).frame_buffer.buffer_width as int,
                    rect_filled_points(
                        old(self).frame_buffer.buffer_width as int,
                        old(self).frame_buffer.buffer_height as int,
                        x as int,
                        y as int,
                        width as int,
                        height as int,
                    ),
                    c,
                ),
                None => final(self).frame_buffer.pixel_buffer@ == old(
                    self,
                ).frame_buffer.pixel_buffer@,
            },
    {
        let ghost w_spec = old(self).frame_buffer.buffer_width as int;
        let ghost h_spec = old(self).frame_buffer.buffer_height as int;
        let ghost full = rect_filled_points(
            w_spec,
            h_spec,
            x as int,
            y as int,
            width as int,
            height as int,
        );
        let color = match self.resolve_color(graphics_parameters) {
            Some(c) => c,
            None => {
                return;
            },
        };
        if width <= 0 || height <= 0 {
            proof {
                assert(forall|p: (int, int)| !full.contains(p));
            }
            return;
        }
        let x0 = x as i64;
        let x1m = x as i64 + width as i64 - 1;
        let y0 = y as i64;
        let y1 = y as i64 + height as i64;
        let ghost start_buf = self.frame_buffer.pixel_buffer@;
        let mut row = y0;
        while row < y1
            invariant
                self.wf(),
                old(self).same_frame(*self),
                start_buf == old(self).frame_buffer.pixel_buffer@,
                w_spec == self.frame_buffer.buffer_width as int,
                h_spec == self.frame_buffer.buffer_height as int,
                y0 <= row <= y1,
                y0 == y as int,
                y1 == y as int + height as int,
                x0 == x as int,
                x1m == x as int + width as int - 1,
                width >= 1,
                paints(
                    start_buf,
                    self.frame_buffer.pixel_buffer@,
                    w_spec,
                    rect_filled_points(
                        w_spec,
                        h_spec,
                        x as int,
                        y as int,
                        width as int,
                        row - y as int,
                    ),
                    color,
                ),
            decreases y1 - row,
        {
            let ghost prev = self.frame_buffer.pixel_buffer@;
            self.draw_line_horizontal(x0, x1m, row, color);
            proof {
                let sofar = rect_filled_points(
                    w_spec,
                    h_spec,
                    x as int,
                    y as int,
                    width as int,
                    row - y as int,
                );
                let this_row = hrun_points(w_spec, h_spec, x0 as int, x1m as int, row as int);
                lemma_paints_union(
                    start_buf,
                    prev,
                    self.frame_buffer.pixel_buffer@,
                    w_spec,
                    sofar,
                    this_row,
                    color,
                );
                assert(sofar.union(this_row) =~= rect_filled_points(
                    w_spec,
                    h_spec,
                    x as int,
                    y as int,
                    width as int,
                    row + 1 - y as int,
                ));
            }
            row = row + 1;
        }
    }

    /// Circle outline via the midpoint algorithm: the bounding
    /// box is validated up front and any failure skips the whole circle; a
    /// palette miss or a degenerate (zero or negative) radius draws
    /// nothing.
    pub fn circle(&mut self, graphics_parameters: i32, x: i32, y: i32, radius: i32)
        requires
            old(self).wf(),
        ensures
            final(self).wf(),
            old(self).same_frame(*final(self)),
            match resolved_color(*old(self).rom, graphics_parameters as u32) {
                Some(c) => if circle_bbox_ok(
                    old(self).frame_buffer.buffer_width as int,
                    old(self).frame_buffer.buffer_height as int,
                    x as int,
                    y as int,
                    radius as int,
                ) && radius > 0 {
                    paints(
                        old(self).frame_buffer.pixel_buffer@,
                        final(self).frame_buffer.pixel_buffer@,
                        old(self).frame_buffer.buffer_width as int,
                        circle_points(x as int, y as int, radius as int),
                        c,
                    )
                } else {
                    final(self).frame_buffer.pixel_buffer@ == old(
                        self,
                    ).frame_buffer.pixel_buffer@
                },
                None => final(self).frame_buffer.pixel_buffer@ == old(
                    self,
                ).frame_buffer.pixel_buffer@,
            },
    {
        let ghost w_spec = old(self).frame_buffer.buffer_width as int;
        let ghost h_spec = old(self).frame_buffer.buffer_height as int;
        let ghost full = circle_points(x as int, y as int, radius as int);
        let w = self.width() as i64;
        let h = self.height() as i64;
        let xi = x as i64;
        let yi = y as i64;
        let ri = radius as i64;
        let color = match self.resolve_color(graphics_parameters) {
            Some(c) => c,
            None => {
                return;
            },
        };
        if yi - ri < 0 || yi + ri >= h || xi - ri < 0 || xi + ri >= w {
            return;
        }
        if radius <= 0 {
            return;
        }
        let ghost start_buf = self.frame_buffer.pixel_buffer@;
        let ghost mut pts = Set::<(int, int)>::empty();
        let ghost b0 = self.frame_buffer.pixel_buffer@;
        self.set_pixel_safe(XCord(xi as usize), YCord((yi + ri) as usize), color);
        proof {
            assert(pts.union(Set::<(int, int)>::empty().insert(((xi as int), (yi + ri) as int)))
                =~= pts.insert(((xi as int), (yi + ri) as int)));
            lemma_paints_union(
                b0,
                b0,
                self.frame_buffer.pixel_buffer@,
                w_spec,
                pts,
                Set::<(int, int)>::empty().insert(((xi as int), (yi + ri) as int)),
                color,
            );
            pts = pts.insert(((xi as int), (yi + ri) as int));
        }
        let ghost b1 = self.frame_buffer.pixel_buffer@;
        self.set_pixel_safe(XCord(xi as usize), YCord((yi - ri) as usize), color);
        proof {
            lemma_paints_insert(
                start_buf,
                b1,
                self.frame_buffer.pixel_buffer@,
                w_spec,
                pts,
                ((xi as int), (yi - ri) as int),
                color,
            );
            pts = pts.insert(((xi as int), (yi - ri) as int));
        }
        let ghost b2 = self.frame_buffer.pixel_buffer@;
        self.set_pixel_safe(XCord((xi + ri) as usize), YCord(yi as usize), color);
        proof {
            lemma_paints_insert(
                start_buf,
                b2,
                self.frame_buffer.pixel_buffer@,
                w_spec,
                pts,
                ((xi + ri) as int, (yi as int)),
                color,
            );
            pts = pts.insert(((xi + ri) as int, (yi as int)));
        }
        let ghost b3 = self.frame_buffer.pixel_buffer@;
        self.set_pixel_safe(XCord((xi - ri) as usize), YCord(yi as usize), color);
        proof {
            lemma_paints_insert(
                start_buf,
                b3,
                self.frame_buffer.pixel_buffer@,
                w_spec,
                pts,
                ((xi - ri) as int, (yi as int)),
                color,
            );
            pts = pts.insert(((xi - ri) as int, (yi as int)));
        }
        let mut f: i64 = 1 - ri;
        let mut ddf_x: i64 = 0;
        let mut ddf_y: i64 = -2 * ri;
        let mut px: i64 = 0;
        let mut py: i64 = ri;
        while px < py
            invariant
                self.wf(),
                old(self).same_frame(*self),
                start_buf == old(self).frame_buffer.pixel_buffer@,
                w_spec == self.frame_buffer.buffer_width as int,
                h_spec == self.frame_buffer.buffer_height as int,
                xi == x as int,
                yi == y as int,
                ri == radius as int,
                0 <= xi - ri,
                xi + ri < w_spec,
                0 <= yi - ri,
                yi + ri < h_spec,
                0 <= px,
                px <= py + 1,
                py <= ri,
                0 <= py,
                ddf_x == 2 * px,
                ddf_y == -2 * py,
                -(px + 1) * 0x10000 <= f <= (px + 1) * 0x10000,
                ri <= 0x8000,
                paints(start_buf, self.frame_buffer.pixel_buffer@, w_spec, pts, color),
                full == circle_points(x as int, y as int, radius as int),
                full == pts.union(
                    circle_walk(
                        xi as int,
                        yi as int,
                        f as int,
                        ddf_x as int,
                        ddf_y as int,
                        px as int,
                        py as int,
                    ),
                ),
            decreases py + 1 - px,
        {
            let ghost f_old = f as int;
            let ghost ddf_x_old = ddf_x as int;
            let ghost ddf_y_old = ddf_y as int;
            let ghost px_old = px as int;
            let ghost py_old = py as int;
            let ghost pts_before = pts;
            if f >= 0 {
                py = py - 1;
                ddf_y = ddf_y + 2;
                f = f + ddf_y;
            }
            px = px + 1;
            ddf_x = ddf_x + 2;
            f = f + ddf_x + 1;
            let ghost s0 = self.frame_buffer.pixel_buffer@;
            self.set_pixel_safe(XCord((xi + px) as usize), YCord((yi + py) as usize), color);
            proof {
                lemma_paints_insert(start_buf, s0, self.frame_buffer.pixel_buffer@, w_spec, pts,
                    ((xi + px) as int, (yi + py) as int), color);
                pts = pts.insert(((xi + px) as int, (yi + py) as int));
            }
            let ghost s1 = self.frame_buffer.pixel_buffer@;
            self.set_pixel_safe(XCord((xi - px) as usize), YCord((yi + py) as usize), color);
            proof {
                lemma_paints_insert(start_buf, s1, self.frame_buffer.pixel_buffer@, w_spec, pts,
                    ((xi - px) as int, (yi + py) as int), color);
                pts = pts.insert(((xi - px) as int, (yi + py) as int));
            }
            let ghost s2 = self.frame_buffer.pixel_buffer@;
            self.set_pixel_safe(XCord((xi + px) as usize), YCord((yi - py) as usize), color);
            proof {
                lemma_paints_insert(start_buf, s2, self.frame_buffer.pixel_buffer@, w_spec, pts,
                    ((xi + px) as int, (yi - py) as int), color);
                pts = pts.insert(((xi + px) as int, (yi - py) as int));
            }
            let ghost s3 = self.frame_buffer.pixel_buffer@;
            self.set_pixel_safe(XCord((xi - px) as usize), YCord((yi - py) as usize), color);
            proof {
                lemma_paints_insert(start_buf, s3, self.frame_buffer.pixel_buffer@, w_spec, pts,
                    ((xi - px) as int, (yi - py) as int), color);
                pts = pts.insert(((xi - px) as int, (yi - py) as int));
            }
            let ghost s4 = self.frame_buffer.pixel_buffer@;
            self.set_pixel_safe(XCord((xi + py) as usize), YCord((yi + px) as usize), color);
            proof {
                lemma_paints_insert(start_buf, s4, self.frame_buffer.pixel_buffer@, w_spec, pts,
                    ((xi + py) as int, (yi + px) as int), color);
                pts = pts.insert(((xi + py) as int, (yi + px) as int));
            }
            let ghost s5 = self.frame_buffer.pixel_buffer@;
            self.set_pixel_safe(XCord((xi - py) as usize), YCord((yi + px) as usize), color);
            proof {
                lemma_paints_insert(start_buf, s5, self.frame_buffer.pixel_buffer@, w_spec, pts,
                    ((xi - py) as int, (yi + px) as int), color);
                pts = pts.insert(((xi - py) as int, (yi + px) as int));
            }
            let ghost s6 = self.frame_buffer.pixel_buffer@;
            self.set_pixel_safe(XCord((xi + py) as usize), YCord((yi - px) as usize), color);
            proof {
                lemma_paints_insert(start_buf, s6, self.frame_buffer.pixel_buffer@, w_spec, pts,
                    ((xi + py) as int, (yi - px) as int), color);
                pts = pts.insert(((xi + py) as int, (yi - px) as int));
            }
            let ghost s7 = self.frame_buffer.pixel_buffer@;
            self.set_pixel_safe(XCord((xi - py) as usize), YCord((yi - px) as usize), color);
            proof {
                lemma_paints_insert(start_buf, s7, self.frame_buffer.pixel_buffer@, w_spec, pts,
                    ((xi - py) as int, (yi - px) as int), color);
                pts = pts.insert(((xi - py) as int, (yi - px) as int));
            }
            proof {
                let rest = circle_walk(
                    xi as int,
                    yi as int,
                    f as int,
                    ddf_x as int,
                    ddf_y as int,
                    px as int,
                    py as int,
                );
                assert(circle_walk(
                    xi as int,
                    yi as int,
                    f_old,
                    ddf_x_old,
                    ddf_y_old,
                    px_old,
                    py_old,
                ) == rest.insert(((xi + px) as int, (yi + py) as int)).insert(
                    ((xi - px) as int, (yi + py) as int),
                ).insert(((xi + px) as int, (yi - py) as int)).insert(
                    ((xi - px) as int, (yi - py) as int),
                ).insert(((xi + py) as int, (yi + px) as int)).insert(
                    ((xi - py) as int, (yi + px) as int),
                ).insert(((xi + py) as int, (yi - px) as int)).insert(
                    ((xi - py) as int, (yi - px) as int),
                ));
                assert(pts_before.union(circle_walk(
                    xi as int,
                    yi as int,
                    f_old,
                    ddf_x_old,
                    ddf_y_old,
                    px_old,
                    py_old,
                )) =~= pts.union(rest));
            }
        }
        proof {
            assert(circle_walk(
                xi as int,
                yi as int,
                f as int,
                ddf_x as int,
                ddf_y as int,
                px as int,
                py as int,
            ) =~= Set::<(int, int)>::empty());
            assert(full =~= pts);
        }
    }

    /// Sprite blit: resolves palette and sheet from the asset
    /// source (a miss on either skips the draw, as does a sprite index the
    /// sheet does not hold or a position too far off screen to touch it) and
    /// delegates the pixel-level blit, transparency mask included, to the
    /// buffer-level primitive.
    pub fn sprite(&mut self, graphics_parameters: i32, transparency_mask: i64, x: i32, y: i32)
        requires
            old(self).wf(),
        ensures
            final(self).wf(),
            old(self).same_frame(*final(self)),
            ({
                let bits = graphics_parameters as u32;
                let rom = *old(self).rom;
                if spec_palette_index(bits) < rom.palettes@.len() && spec_sprite_sheet_index(bits)
                    < rom.sprite_sheets@.len() && spec_sprite_index(bits)
                    < rom.sprite_sheets@[spec_sprite_sheet_index(bits) as int].count
                    && -0x10_0000 <= x <= 0x10_0000 && -0x10_0000 <= y <= 0x10_0000 {
                    final(self).frame_buffer.pixel_buffer@ == blit_of(
                        old(self).frame_buffer.pixel_buffer@,
                        old(self).frame_buffer.buffer_width as int,
                        old(self).frame_buffer.buffer_height as int,
                        rom.sprite_sheets@[spec_sprite_sheet_index(bits) as int].width as int,
                        rom.sprite_sheets@[spec_sprite_sheet_index(bits) as int].height as int,
                        rom.sprite_sheets@[spec_sprite_sheet_index(bits) as int].sprites@.subrange(
                            spec_sprite_index(bits) as int * (
                            rom.sprite_sheets@[spec_sprite_sheet_index(bits) as int].width
                                * rom.sprite_sheets@[spec_sprite_sheet_index(bits) as int].height
                            ) as int,
                            (spec_sprite_index(bits) as int + 1) * (
                            rom.sprite_sheets@[spec_sprite_sheet_index(bits) as int].width
                                * rom.sprite_sheets@[spec_sprite_sheet_index(bits) as int].height
                            ) as int,
                        ),
                        palette_bytes(rom.palettes@[spec_palette_index(bits) as int]),
                        x as int,
                        y as int,
                        transparency_mask as int,
                    )
                } else {
                    final(self).frame_buffer.pixel_buffer@ == old(
                        self,
                    ).frame_buffer.pixel_buffer@
                }
            }),
    {
        let p = decode_graphics_parameters(graphics_parameters);
        if x < -0x10_0000 || x > 0x10_0000 || y < -0x10_0000 || y > 0x10_0000 {
            return;
        }
        let palette = match self.rom.palette(p.palette_index) {
            Some(pal) => pal,
            None => {
                return;
            },
        };
        let sheet = match self.rom.sprite_sheet(p.sprite_sheet_index) {
            Some(s) => s,
            None => {
                return;
            },
        };
        if p.sprite_index >= sheet.count {
            return;
        }
        proof {
            assert(self.rom.resolution.width_spec() <= 1280);
            assert(self.rom.resolution.height_spec() <= 1280);
        }
        let bw = self.frame_buffer.buffer_width;
        let bh = self.frame_buffer.buffer_height;
        blit_sprite(
            &mut self.frame_buffer.pixel_buffer,
            bw,
            bh,
            sheet,
            p.sprite_index,
            palette,
            x,
            y,
            transparency_mask,
        );
    }
}

} // verus!
