use std::collections::HashSet;
use std::sync::Arc;

use gamercade_draw::color::{Color, Palette, BYTES_PER_PIXEL, PALETTE_COLORS};
use gamercade_draw::draw_context::DrawContext;
use gamercade_draw::resolution::Resolution;
use gamercade_draw::rom::Rom;
use gamercade_draw::sprite_sheet::SpriteSheet;

/// First palette: color `i` encodes as `[i, i + 100, 200 - i, 255]`.
fn palette_a() -> Palette {
    let mut colors: Vec<Color> = Vec::new();
    let mut i: usize = 0;
    while i < PALETTE_COLORS {
        let v = i as u8;
        colors.push(Color::new(v, v.wrapping_add(100), 200u8.wrapping_sub(v), 255));
        i += 1;
    }
    Palette::new(colors).unwrap()
}

/// Second palette, distinct from the first: color `i` encodes as
/// `[255 - i, i, i, 255]`.
fn palette_b() -> Palette {
    let mut colors: Vec<Color> = Vec::new();
    let mut i: usize = 0;
    while i < PALETTE_COLORS {
        let v = i as u8;
        colors.push(Color::new(255 - v, v, v, 255));
        i += 1;
    }
    Palette::new(colors).unwrap()
}

fn color_a(i: u8) -> [u8; 4] {
    [i, i + 100, 200 - i, 255]
}

fn color_b(i: u8) -> [u8; 4] {
    [255 - i, i, i, 255]
}

fn new_ctx() -> DrawContext {
    let sheet = SpriteSheet::new(2, 2, 1, vec![1u8, 2, 3, 0]).unwrap();
    let rom = Rom::new(Resolution::Low, vec![palette_a(), palette_b()], vec![sheet]).unwrap();
    DrawContext::new(Arc::new(rom))
}

/// Packs drawing parameters the way the public API consumes them.
fn params(palette: u8, sheet: u8, sprite: u8, color: u8) -> i32 {
    (palette as i32) | ((sheet as i32) << 8) | ((sprite as i32) << 16) | ((color as i32) << 24)
}

fn pixel_at(ctx: &DrawContext, x: usize, y: usize) -> [u8; 4] {
    let w = ctx.frame_buffer.buffer_width;
    let base = (x + y * w) * BYTES_PER_PIXEL;
    let b = &ctx.frame_buffer.pixel_buffer;
    [b[base], b[base + 1], b[base + 2], b[base + 3]]
}

/// All colored (non-zero) pixels of the frame.
fn colored_pixels(ctx: &DrawContext) -> HashSet<(usize, usize)> {
    let mut out: HashSet<(usize, usize)> = HashSet::new();
    for y in 0..ctx.frame_buffer.buffer_height {
        for x in 0..ctx.frame_buffer.buffer_width {
            if pixel_at(ctx, x, y) != [0, 0, 0, 0] {
                out.insert((x, y));
            }
        }
    }
    out
}

#[test]
fn set_pixel_writes_resolved_color() {
    let mut ctx = new_ctx();
    ctx.set_pixel(params(0, 0, 0, 3), 5, 7);
    assert_eq!(pixel_at(&ctx, 5, 7), color_a(3));
    let colored = colored_pixels(&ctx);
    assert_eq!(colored.len(), 1);
    assert!(colored.contains(&(5, 7)));
}

#[test]
fn set_pixel_selects_palette_from_packed_value() {
    let mut ctx = new_ctx();
    ctx.set_pixel(params(1, 0, 0, 2), 0, 0);
    assert_eq!(pixel_at(&ctx, 0, 0), color_b(2));
}

#[test]
fn set_pixel_out_of_bounds_is_noop() {
    let mut ctx = new_ctx();
    ctx.set_pixel(params(0, 0, 0, 3), -1, 5);
    ctx.set_pixel(params(0, 0, 0, 3), 320, 5);
    ctx.set_pixel(params(0, 0, 0, 3), 5, -1);
    ctx.set_pixel(params(0, 0, 0, 3), 5, 180);
    assert!(colored_pixels(&ctx).is_empty());
}

#[test]
fn set_pixel_palette_miss_is_noop() {
    let mut ctx = new_ctx();
    ctx.set_pixel(params(99, 0, 0, 3), 5, 7);
    assert!(colored_pixels(&ctx).is_empty());
}

#[test]
fn line_horizontal_colors_exact_pixels() {
    let mut ctx = new_ctx();
    ctx.line(params(0, 0, 0, 1), 0, 0, 5, 0);
    let expected: HashSet<(usize, usize)> = (0..=5).map(|x| (x, 0)).collect();
    assert_eq!(colored_pixels(&ctx), expected);
    assert_eq!(pixel_at(&ctx, 3, 0), color_a(1));
}

#[test]
fn line_vertical_clips_and_continues() {
    let mut ctx = new_ctx();
    ctx.line(params(0, 0, 0, 1), 5, -3, 5, 4);
    let expected: HashSet<(usize, usize)> = (0..=4).map(|y| (5, y)).collect();
    assert_eq!(colored_pixels(&ctx), expected);
}

#[test]
fn line_diagonal_walk() {
    let mut ctx = new_ctx();
    ctx.line(params(0, 0, 0, 1), 0, 0, 3, 3);
    let expected: HashSet<(usize, usize)> = (0..=3).map(|i| (i, i)).collect();
    assert_eq!(colored_pixels(&ctx), expected);
}

#[test]
fn line_walk_stops_at_first_invalid_pixel() {
    let mut ctx = new_ctx();
    // Shallow walk starting off screen: the very first pixel is invalid, so
    // the whole walk ends before anything is drawn.
    ctx.line(params(0, 0, 0, 1), -2, 0, 3, 1);
    assert!(colored_pixels(&ctx).is_empty());
}

#[test]
fn line_palette_miss_is_noop() {
    let mut ctx = new_ctx();
    ctx.line(params(99, 0, 0, 1), 0, 0, 5, 0);
    assert!(colored_pixels(&ctx).is_empty());
}

#[test]
fn rect_outline_draws_four_edges() {
    let mut ctx = new_ctx();
    ctx.rect(params(0, 0, 0, 2), 1, 1, 3, 2);
    let mut expected: HashSet<(usize, usize)> = HashSet::new();
    for x in 1..=4 {
        expected.insert((x, 1));
        expected.insert((x, 3));
    }
    for y in 1..=3 {
        expected.insert((1, y));
        expected.insert((4, y));
    }
    assert_eq!(colored_pixels(&ctx), expected);
}

#[test]
fn rect_filled_colors_exact_block() {
    let mut ctx = new_ctx();
    ctx.rect_filled(params(0, 0, 0, 2), 2, 2, 3, 2);
    let expected: HashSet<(usize, usize)> =
        [(2, 2), (3, 2), (4, 2), (2, 3), (3, 3), (4, 3)].into_iter().collect();
    assert_eq!(colored_pixels(&ctx), expected);
    assert_eq!(pixel_at(&ctx, 2, 2), color_a(2));
}

#[test]
fn rect_filled_degenerate_spans_color_nothing() {
    let mut ctx = new_ctx();
    ctx.rect_filled(params(0, 0, 0, 2), 2, 2, 0, 5);
    ctx.rect_filled(params(0, 0, 0, 2), 2, 2, 5, 0);
    ctx.rect_filled(params(0, 0, 0, 2), 2, 2, -3, 4);
    assert!(colored_pixels(&ctx).is_empty());
}

/// Reference midpoint walk used as the test oracle for the circle.
fn circle_reference(cx: i32, cy: i32, r: i32) -> HashSet<(usize, usize)> {
    let mut out: HashSet<(i32, i32)> = HashSet::new();
    out.insert((cx, cy + r));
    out.insert((cx, cy - r));
    out.insert((cx + r, cy));
    out.insert((cx - r, cy));
    let mut f = 1 - r;
    let mut ddf_x = 0;
    let mut ddf_y = -2 * r;
    let mut x = 0;
    let mut y = r;
    while x < y {
        if f >= 0 {
            y -= 1;
            ddf_y += 2;
            f += ddf_y;
        }
        x += 1;
        ddf_x += 2;
        f += ddf_x + 1;
        out.insert((cx + x, cy + y));
        out.insert((cx - x, cy + y));
        out.insert((cx + x, cy - y));
        out.insert((cx - x, cy - y));
        out.insert((cx + y, cy + x));
        out.insert((cx - y, cy + x));
        out.insert((cx + y, cy - x));
        out.insert((cx - y, cy - x));
    }
    out.into_iter().map(|(a, b)| (a as usize, b as usize)).collect()
}

#[test]
fn circle_draws_midpoint_outline() {
    let mut ctx = new_ctx();
    ctx.circle(params(0, 0, 0, 1), 10, 10, 5);
    assert_eq!(colored_pixels(&ctx), circle_reference(10, 10, 5));
    assert_eq!(pixel_at(&ctx, 10, 15), color_a(1));
    assert_eq!(pixel_at(&ctx, 10, 5), color_a(1));
    assert_eq!(pixel_at(&ctx, 15, 10), color_a(1));
    assert_eq!(pixel_at(&ctx, 5, 10), color_a(1));
}

#[test]
fn circle_with_extremal_point_off_screen_is_rejected() {
    let mut ctx = new_ctx();
    ctx.circle(params(0, 0, 0, 1), 2, 2, 5);
    assert!(colored_pixels(&ctx).is_empty());
}

#[test]
fn circle_negative_radius_draws_nothing() {
    let mut ctx = new_ctx();
    ctx.circle(params(0, 0, 0, 1), 10, 10, -1);
    assert!(colored_pixels(&ctx).is_empty());
}

#[test]
fn clear_screen_fills_every_pixel() {
    let mut ctx = new_ctx();
    ctx.clear_screen(params(1, 0, 0, 2));
    for y in [0usize, 1, 90, 179] {
        for x in [0usize, 1, 160, 319] {
            assert_eq!(pixel_at(&ctx, x, y), color_b(2));
        }
    }
}

#[test]
fn clear_screen_palette_miss_leaves_buffer_unchanged() {
    let mut ctx = new_ctx();
    ctx.set_pixel(params(0, 0, 0, 3), 5, 7);
    let before = ctx.frame_buffer.pixel_buffer.clone();
    ctx.clear_screen(params(42, 0, 0, 2));
    assert_eq!(ctx.frame_buffer.pixel_buffer, before);
}

#[test]
fn sprite_blits_pixel_data() {
    let mut ctx = new_ctx();
    // Sheet data [1, 2, 3, 0] row-major on a 2x2 sprite.
    ctx.sprite(params(0, 0, 0, 0), 0, 10, 10);
    assert_eq!(pixel_at(&ctx, 10, 10), color_a(1));
    assert_eq!(pixel_at(&ctx, 11, 10), color_a(2));
    assert_eq!(pixel_at(&ctx, 10, 11), color_a(3));
    assert_eq!(pixel_at(&ctx, 11, 11), color_a(0));
    assert_eq!(colored_pixels(&ctx).len(), 4);
}

#[test]
fn sprite_honors_transparency_mask() {
    let mut ctx = new_ctx();
    // Bit 2 of the mask makes color index 2 transparent.
    ctx.sprite(params(0, 0, 0, 0), 1 << 2, 10, 10);
    assert_eq!(pixel_at(&ctx, 10, 10), color_a(1));
    assert_eq!(pixel_at(&ctx, 11, 10), [0, 0, 0, 0]);
    assert_eq!(pixel_at(&ctx, 10, 11), color_a(3));
}

#[test]
fn sprite_missing_sheet_is_noop() {
    let mut ctx = new_ctx();
    ctx.sprite(params(0, 9, 0, 0), 0, 10, 10);
    assert!(colored_pixels(&ctx).is_empty());
}

#[test]
fn sprite_missing_palette_is_noop() {
    let mut ctx = new_ctx();
    ctx.sprite(params(200, 0, 0, 0), 0, 10, 10);
    assert!(colored_pixels(&ctx).is_empty());
}

#[test]
fn sprite_index_outside_sheet_is_noop() {
    let mut ctx = new_ctx();
    ctx.sprite(params(0, 0, 1, 0), 0, 10, 10);
    assert!(colored_pixels(&ctx).is_empty());
}

#[test]
fn drawing_twice_is_idempotent() {
    let mut ctx = new_ctx();
    ctx.line(params(0, 0, 0, 1), 0, 0, 7, 3);
    let once = ctx.frame_buffer.pixel_buffer.clone();
    ctx.line(params(0, 0, 0, 1), 0, 0, 7, 3);
    assert_eq!(ctx.frame_buffer.pixel_buffer, once);

    let mut ctx = new_ctx();
    ctx.circle(params(0, 0, 0, 1), 10, 10, 5);
    let once = ctx.frame_buffer.pixel_buffer.clone();
    ctx.circle(params(0, 0, 0, 1), 10, 10, 5);
    assert_eq!(ctx.frame_buffer.pixel_buffer, once);

    let mut ctx = new_ctx();
    ctx.rect_filled(params(0, 0, 0, 2), 2, 2, 3, 2);
    let once = ctx.frame_buffer.pixel_buffer.clone();
    ctx.rect_filled(params(0, 0, 0, 2), 2, 2, 3, 2);
    assert_eq!(ctx.frame_buffer.pixel_buffer, once);
}

/// Reference shallow Bresenham walk used as the oracle for comparing the
/// axis-aligned fast paths against the general algorithm.
fn low_walk_reference(x0: i32, y0: i32, x1: i32, y1: i32) -> HashSet<(usize, usize)> {
    let dx = x1 - x0;
    let mut dy = y1 - y0;
    let y_adjust = if dy < 0 {
        dy = -dy;
        -1
    } else {
        1
    };
    let mut d = 2 * dy - dx;
    let mut y = y0;
    let mut out: HashSet<(usize, usize)> = HashSet::new();
    for x in x0..=x1 {
        out.insert((x as usize, y as usize));
        if d > 0 {
            y += y_adjust;
            d += 2 * (dy - dx);
        } else {
            d += 2 * dy;
        }
    }
    out
}

#[test]
fn horizontal_fast_path_matches_general_walk() {
    let mut ctx = new_ctx();
    // Axis-aligned endpoints take the horizontal fast path; the pixel set
    // must equal what the general walk would have produced.
    ctx.line(params(0, 0, 0, 1), 2, 6, 9, 6);
    assert_eq!(colored_pixels(&ctx), low_walk_reference(2, 6, 9, 6));
}

#[test]
fn vertical_fast_path_matches_general_walk() {
    let mut ctx = new_ctx();
    ctx.line(params(0, 0, 0, 1), 6, 2, 6, 9);
    // For a vertical line the general (steep) walk visits exactly the rows
    // between the endpoints on the one column.
    let expected: HashSet<(usize, usize)> = (2..=9).map(|y| (6usize, y)).collect();
    assert_eq!(colored_pixels(&ctx), expected);
}

#[test]
fn circle_zero_radius_draws_nothing() {
    let mut ctx = new_ctx();
    // Degenerate geometry: even with the center on screen and the palette
    // lookup hitting, a zero radius has zero visible effect.
    ctx.circle(params(0, 0, 0, 1), 10, 10, 0);
    assert!(colored_pixels(&ctx).is_empty());
}
