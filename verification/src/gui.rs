//! Shared GUI geometry and colour types: rectangles, points, RGB colours,
//! mouse buttons and the event alphabet of the windowing layer.

use vstd::prelude::*;

verus! {

/// GUI event alphabet delivered by the main loop to the desktop.
#[derive(Clone, Copy)]
pub enum GuiEvent {
    /// Mouse moved to position
    MouseMove { x: i32, y: i32 },
    /// Mouse button pressed
    MouseDown { x: i32, y: i32, button: MouseButton },
    /// Mouse button released
    MouseUp { x: i32, y: i32, button: MouseButton },
    /// Key pressed
    KeyDown { key: char, scancode: u8 },
    /// Key released
    KeyUp { key: char, scancode: u8 },
    /// Window needs redraw
    Redraw,
    /// Timer tick
    Tick,
}

/// Mouse buttons
#[derive(Clone, Copy, Debug, PartialEq, Eq, Structural)]
pub enum MouseButton {
    Left,
    Middle,
    Right,
}

/// Rectangle: a position and a size.  `width`/`height` are in pixels; the
/// position may be negative (a window dragged partly off screen).
#[derive(Clone, Copy, Debug, PartialEq, Eq, Structural)]
pub struct Rect {
    pub x: i32,
    pub y: i32,
    pub width: u32,
    pub height: u32,
}

impl Rect {
    pub fn new(x: i32, y: i32, width: u32, height: u32) -> (r: Rect)
        ensures
            r.x == x && r.y == y && r.width == width && r.height == height,
    {
        Rect { x, y, width, height }
    }

    /// Whether the point lies inside the rectangle (right and bottom edges
    /// excluded).
    pub open spec fn spec_contains(&self, px: int, py: int) -> bool {
        &&& self.x <= px < self.x + self.width
        &&& self.y <= py < self.y + self.height
    }

    pub fn contains(&self, px: i32, py: i32) -> (r: bool)
        ensures
            r == self.spec_contains(px as int, py as int),
    {
        px >= self.x && (px as i64) < (self.x as i64) + (self.width as i64) && py >= self.y
            && (py as i64) < (self.y as i64) + (self.height as i64)
    }

    /// The first column to the right of the rectangle, clipped to `i32`
    /// as the wrapping addition of the original layout arithmetic would be.
    pub fn right(&self) -> (r: i64)
        ensures
            r == self.x + self.width,
    {
        (self.x as i64) + (self.width as i64)
    }

    /// The first row below the rectangle.
    pub fn bottom(&self) -> (r: i64)
        ensures
            r == self.y + self.height,
    {
        (self.y as i64) + (self.height as i64)
    }
}

/// Point structure
#[derive(Clone, Copy, Debug, PartialEq, Eq, Structural)]
pub struct Point {
    pub x: i32,
    pub y: i32,
}

impl Point {
    pub fn new(x: i32, y: i32) -> (r: Point)
        ensures
            r.x == x && r.y == y,
    {
        Point { x, y }
    }
}

/// RGB colour, 8 bits per channel.
#[derive(Clone, Copy, Debug, PartialEq, Eq, Structural)]
pub struct Color {
    pub r: u8,
    pub g: u8,
    pub b: u8,
}

impl Color {
    pub fn rgb(r: u8, g: u8, b: u8) -> (c: Color)
        ensures
            c.r == r && c.g == g && c.b == b,
    {
        Color { r, g, b }
    }

    /// Unpack a colour from `0x00RRGGBB`.
    pub fn from_u32(val: u32) -> (c: Color)
        ensures
            c.r == (val >> 16) & 0xFF,
            c.g == (val >> 8) & 0xFF,
            c.b == val & 0xFF,
    {
        proof {
            assert((val >> 16) & 0xFF < 256 && (val >> 8) & 0xFF < 256 && val & 0xFF < 256)
                by (bit_vector);
        }
        Color {
            r: ((val >> 16) & 0xFF) as u8,
            g: ((val >> 8) & 0xFF) as u8,
            b: (val & 0xFF) as u8,
        }
    }

    /// Pack the colour as `0x00RRGGBB`.
    pub fn to_u32(&self) -> (val: u32)
        ensures
            val == ((self.r as u32) << 16) | ((self.g as u32) << 8) | (self.b as u32),
    {
        ((self.r as u32) << 16) | ((self.g as u32) << 8) | (self.b as u32)
    }

    pub fn black() -> (c: Color)
        ensures
            c == (Color { r: 0, g: 0, b: 0 }),
    {
        Color { r: 0, g: 0, b: 0 }
    }

    pub fn white() -> (c: Color)
        ensures
            c == (Color { r: 255, g: 255, b: 255 }),
    {
        Color { r: 255, g: 255, b: 255 }
    }
}

} // verus!
