use yac8::display::{C8Display, Color, PIXEL_SIZE, SCREEN_HEIGHT, SCREEN_WIDTH};

#[test]
fn colours_match_their_names() {
    assert_eq!(Color::white(), Color { r: 255, g: 255, b: 255, a: 255 });
    assert_eq!(Color::black(), Color { r: 0, g: 0, b: 0, a: 255 });
    assert_eq!(Color::gray(), Color { r: 128, g: 128, b: 128, a: 255 });
}

#[test]
fn screen_size_follows_pixel_size() {
    assert_eq!(PIXEL_SIZE, 20);
    assert_eq!(SCREEN_WIDTH, 1280);
    assert_eq!(SCREEN_HEIGHT, 640);
}

#[test]
fn new_display_is_blank() {
    let d = C8Display::new(Color::white(), Color::black(), true);
    assert!(d.buff.iter().all(|p| !p));
    assert!(d.debug_lines);
    for x in 0..64 {
        for y in 0..32 {
            assert_eq!(d.pixel_color(x, y), Color::black());
        }
    }
}

#[test]
fn pixel_colour_reads_row_major_buffer() {
    let mut d = C8Display::new(Color::white(), Color::black(), false);
    d.buff[3 * 64 + 5] = true;
    assert_eq!(d.pixel_color(5, 3), Color::white());
    assert_eq!(d.pixel_color(3, 5), Color::black());
    d.clear();
    assert_eq!(d.pixel_color(5, 3), Color::black());
    assert_eq!(d.on_color, Color::white());
}

#[test]
fn pixel_rect_is_offset_and_scaled() {
    assert_eq!(C8Display::pixel_rect(0, 0), (640, 320, 20, 20));
    assert_eq!(C8Display::pixel_rect(63, 31), (63 * 20 + 640, 31 * 20 + 320, 20, 20));
    assert_eq!(C8Display::pixel_rect(-1, -2), (620, 280, 20, 20));
}
