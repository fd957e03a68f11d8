use gamercade_draw::color::{Color, Palette, PALETTE_COLORS};
use gamercade_draw::input::{Buttons, InputState, PlayerInputEntry};
use gamercade_draw::resolution::Resolution;
use gamercade_draw::sprite_sheet::SpriteSheet;

#[test]
fn resolution_dimensions() {
    assert_eq!(Resolution::Low.width(), 320);
    assert_eq!(Resolution::Low.height(), 180);
    assert_eq!(Resolution::Medium.width(), 640);
    assert_eq!(Resolution::Medium.height(), 320);
    assert_eq!(Resolution::High.width(), 1280);
    assert_eq!(Resolution::High.height(), 720);
}

#[test]
fn resolution_total_pixels() {
    assert_eq!(Resolution::Low.total_pixels(), 320 * 180);
    assert_eq!(Resolution::Medium.total_pixels(), 640 * 320);
    assert_eq!(Resolution::High.total_pixels(), 1280 * 720);
}

#[test]
fn push_input_state_rolls_forward() {
    let mut entry = PlayerInputEntry::default();
    let first = InputState { buttons: Buttons { bits: 0b1010 } };
    entry.push_input_state(first);
    assert_eq!(entry.current, first);
    assert_eq!(entry.previous, Buttons { bits: 0 });

    let second = InputState { buttons: Buttons { bits: 0b0110 } };
    entry.push_input_state(second);
    assert_eq!(entry.current, second);
    assert_eq!(entry.previous, Buttons { bits: 0b1010 });
}

#[test]
fn palette_rejects_wrong_size() {
    let colors: Vec<Color> = vec![Color::new(1, 2, 3, 4); 10];
    assert!(Palette::new(colors).is_none());
    let colors: Vec<Color> = vec![Color::new(1, 2, 3, 4); PALETTE_COLORS];
    assert!(Palette::new(colors).is_some());
}

#[test]
fn sprite_sheet_rejects_bad_data() {
    // wrong data length
    assert!(SpriteSheet::new(2, 2, 1, vec![0u8; 3]).is_none());
    // color index outside the palette
    assert!(SpriteSheet::new(2, 2, 1, vec![0u8, 1, 2, 64]).is_none());
    // well formed
    assert!(SpriteSheet::new(2, 2, 1, vec![0u8, 1, 2, 63]).is_some());
}
