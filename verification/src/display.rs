use vstd::prelude::*;

verus! {

/// Width of the CHIP-8 screen, in pixels.
pub const DISPLAY_WIDTH: usize = 64;

/// Height of the CHIP-8 screen, in pixels.
pub const DISPLAY_HEIGHT: usize = 32;

/// Number of pixels of the CHIP-8 screen.
pub const DISPLAY_PIXELS: usize = 2048;

/// Side of one CHIP-8 pixel on the host window, in host pixels.
pub const PIXEL_SIZE: u32 = 20;

/// Width of the drawing area on the host, in host pixels.
pub const SCREEN_WIDTH: u32 = 64 * PIXEL_SIZE;

/// Height of the drawing area on the host, in host pixels.
pub const SCREEN_HEIGHT: u32 = 32 * PIXEL_SIZE;

/// An RGBA colour.
#[derive(Debug, Clone, Copy, PartialEq, Eq, Structural)]
pub struct Color {
    pub r: u8,
    pub g: u8,
    pub b: u8,
    pub a: u8,
}

impl Color {
    /// Opaque white.
    pub fn white() -> (c: Color)
        ensures
            c == (Color { r: 255, g: 255, b: 255, a: 255 }),
    {
        Color { r: 255, g: 255, b: 255, a: 255 }
    }

    /// Opaque black.
    pub fn black() -> (c: Color)
        ensures
            c == (Color { r: 0, g: 0, b: 0, a: 255 }),
    {
        Color { r: 0, g: 0, b: 0, a: 255 }
    }

    /// Opaque mid grey, used for the pixel grid in debug mode.
    pub fn gray() -> (c: Color)
        ensures
            c == (Color { r: 128, g: 128, b: 128, a: 255 }),
    {
        Color { r: 128, g: 128, b: 128, a: 255 }
    }
}

/// The index in the frame buffer of the pixel at column `x` and row `y`.
pub open spec fn pixel_index(x: int, y: int) -> int {
    y * 64 + x
}

/// A blank screen.
pub open spec fn blank_screen() -> Seq<bool> {
    Seq::new(2048, |i: int| false)
}

/// The frame buffer of the CHIP-8 screen and the colours it is shown in.
/// `buff[y * 64 + x]` is the pixel at column `x` and row `y`.
pub struct C8Display {
    pub buff: [bool; 2048],
    pub on_color: Color,
    pub off_color: Color,
    pub debug_lines: bool,
}

impl C8Display {
    /// A display with every pixel off.
    pub fn new(on_color: Color, off_color: Color, debug_lines: bool) -> (d: Self)
        ensures
            d.buff@ == blank_screen(),
            d.on_color == on_color,
            d.off_color == off_color,
            d.debug_lines == debug_lines,
    {
        let d = C8Display { buff: [false; 2048], on_color, off_color, debug_lines };
        assert(d.buff@ =~= blank_screen());
        d
    }

    /// Turns every pixel off.
    pub fn clear(&mut self)
        ensures
            final(self).buff@ == blank_screen(),
            final(self).on_color == old(self).on_color,
            final(self).off_color == old(self).off_color,
            final(self).debug_lines == old(self).debug_lines,
    {
        self.buff = [false; 2048];
        assert(self.buff@ =~= blank_screen());
    }

    /// The colour in which the pixel at column `x` and row `y` is shown.
    pub fn pixel_color(&self, x: usize, y: usize) -> (c: Color)
        requires
            x < 64,
            y < 32,
        ensures
            c == (if self.buff@[pixel_index(x as int, y as int)] {
                self.on_color
            } else {
                self.off_color
            }),
    {
        if self.buff[y * 64 + x] {
            self.on_color
        } else {
            self.off_color
        }
    }

    /// The host rectangle `(left, top, width, height)` that shows the pixel at
    /// column `x` and row `y`.
    pub fn pixel_rect(x: i32, y: i32) -> (r: (i32, i32, u32, u32))
        requires
            i32::MIN <= x * 20 + 640 <= i32::MAX,
            i32::MIN <= y * 20 + 320 <= i32::MAX,
            i32::MIN <= x * 20 <= i32::MAX,
            i32::MIN <= y * 20 <= i32::MAX,
        ensures
            r.0 == x * 20 + 640,
            r.1 == y * 20 + 320,
            r.2 == PIXEL_SIZE,
            r.3 == PIXEL_SIZE,
    {
        let size = PIXEL_SIZE as i32;
        (x * size + (SCREEN_WIDTH as i32) / 2, y * size + (SCREEN_HEIGHT as i32) / 2, PIXEL_SIZE, PIXEL_SIZE)
    }
}

} // verus!
