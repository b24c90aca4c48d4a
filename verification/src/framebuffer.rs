//! Framebuffer graphics: pixel, line, rectangle and glyph primitives on a
//! 16/24/32-bpp linear pixel buffer, plus the whole-frame copy used for
//! double buffering.
//!
//! The buffer is owned: the compositor renders into plain memory, and the
//! caller that owns the real scanout copies it out.  All operations clip
//! to `[0, width) x [0, height)`.  For 32 bpp the byte order is B, G, R, A;
//! for 24 bpp B, G, R; for 16 bpp little-endian RGB565.

use vstd::prelude::*;
use crate::font;
use crate::gui::{Color, Rect};
use vstd::string::StrSliceExecFns;

verus! {

/// The RGB565 encoding of a colour.
pub open spec fn spec_rgb565(c: Color) -> u16 {
    ((((c.r >> 3) as u16) << 11) | (((c.g >> 2) as u16) << 5) | ((c.b >> 3) as u16)) as u16
}

/// The bytes one pixel of the given depth holds for a colour.
pub open spec fn spec_pixel_bytes(c: Color, bpp: u32) -> Seq<u8> {
    if bpp == 4 {
        seq![c.b, c.g, c.r, 0xFFu8]
    } else if bpp == 3 {
        seq![c.b, c.g, c.r]
    } else {
        let v = spec_rgb565(c);
        seq![(v & 0xFF) as u8, ((v >> 8) & 0xFF) as u8]
    }
}

/// Framebuffer for pixel manipulation over an owned buffer.
pub struct Framebuffer {
    /// The pixel bytes, row-major with `pitch` bytes per row
    pub data: Vec<u8>,
    /// Width in pixels
    pub width: u32,
    /// Height in pixels
    pub height: u32,
    /// Bytes per pixel (2, 3, or 4)
    pub bpp: u32,
    /// Bytes per scanline
    pub pitch: u32,
}

impl Framebuffer {
    /// The pixel bytes.
    pub open spec fn view(&self) -> Seq<u8> {
        self.data@
    }

    /// The buffer's geometry is consistent: a supported depth, rows that
    /// fit their pitch, and exactly `pitch * height` bytes.
    pub open spec fn wf(&self) -> bool {
        &&& (self.bpp == 2 || self.bpp == 3 || self.bpp == 4)
        &&& self.width <= 8192
        &&& self.height <= 8192
        &&& self.pitch <= 65536
        &&& self.width * self.bpp <= self.pitch
        &&& self.data.len() == self.pitch * self.height
    }

    /// Two buffers of the same shape.
    pub open spec fn same_geometry(&self, other: &Framebuffer) -> bool {
        &&& self.width == other.width
        &&& self.height == other.height
        &&& self.bpp == other.bpp
        &&& self.pitch == other.pitch
    }

    /// The byte offset of pixel (x, y).
    pub open spec fn off(&self, x: int, y: int) -> int {
        y * self.pitch + x * self.bpp
    }

    /// Whether (x, y) lies on the screen.
    pub open spec fn in_bounds(&self, x: int, y: int) -> bool {
        0 <= x < self.width && 0 <= y < self.height
    }

    /// Whether byte `k` belongs to some pixel of the clipped rectangle
    /// `[x0, x1) x [y0, y1)`.
    pub open spec fn covers(&self, x0: int, y0: int, x1: int, y1: int, k: int) -> bool {
        exists|px: int, py: int|
            x0 <= px < x1 && y0 <= py < y1 && self.in_bounds(px, py) && self.off(px, py) <= k
                < self.off(px, py) + self.bpp
    }

    /// The pixel (x, y) holds exactly the bytes of colour `c`.
    pub open spec fn pixel_is(&self, x: int, y: int, c: Color) -> bool {
        forall|j: int|
            0 <= j < self.bpp ==> self@[self.off(x, y) + j] == spec_pixel_bytes(c, self.bpp)[j]
    }

    /// Create a framebuffer of the given geometry, zero-filled.
    pub fn new(width: u32, height: u32, bpp: u32, pitch: u32) -> (r: Framebuffer)
        requires
            bpp == 2 || bpp == 3 || bpp == 4,
            width <= 8192,
            height <= 8192,
            pitch <= 65536,
            width * bpp <= pitch,
        ensures
            r.wf(),
            r.width == width && r.height == height && r.bpp == bpp && r.pitch == pitch,
            forall|k: int| 0 <= k < r@.len() ==> r@[k] == 0u8,
    {
        proof {
            assert(pitch * height <= 65536 * 8192) by (nonlinear_arith)
                requires
                    pitch <= 65536,
                    height <= 8192,
            ;
        }
        let total = (pitch as usize) * (height as usize);
        let mut data: Vec<u8> = Vec::new();
        let mut i: usize = 0;
        while i < total
            invariant
                i <= total,
                data@.len() == i,
                forall|k: int| 0 <= k < i ==> data@[k] == 0u8,
            decreases total - i,
        {
            data.push(0);
            i += 1;
        }
        Framebuffer { data, width, height, bpp, pitch }
    }

    /// Set a single pixel; writes out of bounds are dropped.
    pub fn set_pixel(&mut self, x: i32, y: i32, color: Color)
        requires
            old(self).wf(),
        ensures
            final(self).wf(),
            final(self).same_geometry(old(self)),
            final(self)@.len() == old(self)@.len(),
            !old(self).in_bounds(x as int, y as int) ==> final(self)@ == old(self)@,
            old(self).in_bounds(x as int, y as int) ==> {
                &&& final(self).pixel_is(x as int, y as int, color)
                &&& forall|k: int|
                    0 <= k < old(self)@.len() && !(old(self).off(x as int, y as int) <= k < old(
                        self,
                    ).off(x as int, y as int) + old(self).bpp) ==> final(self)@[k]
                        == old(self)@[k]
            },
    {
        if x < 0 || y < 0 || x >= self.width as i32 || y >= self.height as i32 {
            return ;
        }
        proof {
            lemma_offset_in_range(
                x as int,
                y as int,
                self.width as int,
                self.height as int,
                self.bpp as int,
                self.pitch as int,
            );
        }
        let offset = ((y as u32) as usize) * (self.pitch as usize) + ((x as u32) as usize) * (
        self.bpp as usize);

        if self.bpp == 4 {
            self.data.set(offset, color.b);
            self.data.set(offset + 1, color.g);
            self.data.set(offset + 2, color.r);
            self.data.set(offset + 3, 0xFF);
        } else if self.bpp == 3 {
            self.data.set(offset, color.b);
            self.data.set(offset + 1, color.g);
            self.data.set(offset + 2, color.r);
        } else {
            let r5 = (color.r >> 3) as u16;
            let g6 = (color.g >> 2) as u16;
            let b5 = (color.b >> 3) as u16;
            proof {
                let cr = color.r;
                let cg = color.g;
                let cb = color.b;
                assert((((cr >> 3) as u16) << 11 | ((cg >> 2) as u16) << 5 | (cb >> 3) as u16)
                    < 0x10000) by (bit_vector);
            }
            let rgb565: u16 = (r5 << 11) | (g6 << 5) | b5;
            proof {
                assert(rgb565 & 0xFF < 256 && (rgb565 >> 8) & 0xFF < 256) by (bit_vector);
            }
            self.data.set(offset, (rgb565 & 0xFF) as u8);
            self.data.set(offset + 1, ((rgb565 >> 8) & 0xFF) as u8);
        }
    }

    /// Read a pixel back, or `None` out of bounds.
    pub fn get_pixel(&self, x: i32, y: i32) -> (r: Option<Color>)
        requires
            self.wf(),
        ensures
            r == self.spec_get_pixel(x as int, y as int),
    {
        if x < 0 || y < 0 || x >= self.width as i32 || y >= self.height as i32 {
            return None;
        }
        proof {
            lemma_offset_in_range(
                x as int,
                y as int,
                self.width as int,
                self.height as int,
                self.bpp as int,
                self.pitch as int,
            );
        }
        let offset = ((y as u32) as usize) * (self.pitch as usize) + ((x as u32) as usize) * (
        self.bpp as usize);
        if self.bpp == 4 || self.bpp == 3 {
            Some(Color { r: self.data[offset + 2], g: self.data[offset + 1], b: self.data[offset] })
        } else {
            let lo = self.data[offset];
            let hi = self.data[offset + 1];
            let v: u16 = (lo as u16) | ((hi as u16) << 8);
            proof {
                assert(((v >> 11) & 0x1F) < 32 && ((v >> 5) & 0x3F) < 64 && (v & 0x1F) < 32)
                    by (bit_vector);
                assert((((v >> 11) & 0x1F) as u8) << 3 < 256 && (((v >> 5) & 0x3F) as u8) << 2
                    < 256 && ((v & 0x1F) as u8) << 3 < 256) by (bit_vector);
            }
            let r5 = ((v >> 11) & 0x1F) as u8;
            let g6 = ((v >> 5) & 0x3F) as u8;
            let b5 = (v & 0x1F) as u8;
            Some(Color { r: r5 << 3, g: g6 << 2, b: b5 << 3 })
        }
    }

    /// The colour a pixel decodes to.
    pub open spec fn spec_get_pixel(&self, x: int, y: int) -> Option<Color> {
        if !self.in_bounds(x, y) {
            None
        } else {
            let o = self.off(x, y);
            if self.bpp == 4 || self.bpp == 3 {
                Some(Color { r: self@[o + 2], g: self@[o + 1], b: self@[o] })
            } else {
                let v = ((self@[o] as u16) | ((self@[o + 1] as u16) << 8)) as u16;
                Some(
                    Color {
                        r: ((((v >> 11) & 0x1F) as u8) << 3) as u8,
                        g: ((((v >> 5) & 0x3F) as u8) << 2) as u8,
                        b: (((v & 0x1F) as u8) << 3) as u8,
                    },
                )
            }
        }
    }

    /// Fill a rectangle with a solid colour, clipped to the screen: every
    /// pixel of the clipped rectangle gets the colour, and no byte outside
    /// those pixels changes.
    pub fn fill_rect(&mut self, x: i32, y: i32, width: u32, height: u32, color: Color)
        requires
            old(self).wf(),
        ensures
            final(self).wf(),
            final(self).same_geometry(old(self)),
            final(self)@.len() == old(self)@.len(),
            forall|px: int, py: int|
                x <= px < x + width && y <= py < y + height && old(self).in_bounds(px, py)
                    ==> final(self).pixel_is(px, py, color),
            forall|k: int|
                0 <= k < old(self)@.len() && !old(self).covers(
                    x as int,
                    y as int,
                    x + width,
                    y + height,
                    k,
                ) ==> final(self)@[k] == old(self)@[k],
    {
        let x0: i64 = if (x as i64) > 0 {
            x as i64
        } else {
            0
        };
        let y0: i64 = if (y as i64) > 0 {
            y as i64
        } else {
            0
        };
        let xe: i64 = (x as i64) + (width as i64);
        let ye: i64 = (y as i64) + (height as i64);
        let x1: i64 = if xe < (self.width as i64) {
            xe
        } else {
            self.width as i64
        };
        let y1: i64 = if ye < (self.height as i64) {
            ye
        } else {
            self.height as i64
        };
        if x0 >= x1 || y0 >= y1 {
            return ;
        }

        let mut py: i64 = y0;
        while py < y1
            invariant
                self.wf(),
                self.same_geometry(old(self)),
                self@.len() == old(self)@.len(),
                y0 <= py <= y1,
                0 <= x0 < x1 <= self.width,
                0 <= y0 < y1 <= self.height,
                x0 == (if x > 0 {
                    x as int
                } else {
                    0
                }),
                y0 == (if y > 0 {
                    y as int
                } else {
                    0
                }),
                x1 <= x + width,
                y1 <= y + height,
                x1 == x + width || x1 == self.width,
                y1 == y + height || y1 == self.height,
                forall|qx: int, qy: int|
                    x0 <= qx < x1 && y0 <= qy < py ==> self.pixel_is(qx, qy, color),
                forall|k: int|
                    0 <= k < old(self)@.len() && !old(self).covers(
                        x0 as int,
                        y0 as int,
                        x1 as int,
                        py as int,
                        k,
                    ) ==> self@[k] == old(self)@[k],
            decreases y1 - py,
        {
            let mut px: i64 = x0;
            while px < x1
                invariant
                    self.wf(),
                    self.same_geometry(old(self)),
                    self@.len() == old(self)@.len(),
                    y0 <= py < y1,
                    x0 <= px <= x1,
                    0 <= x0 < x1 <= self.width,
                    0 <= y0 < y1 <= self.height,
                    forall|qx: int, qy: int|
                        x0 <= qx < x1 && y0 <= qy < py ==> self.pixel_is(qx, qy, color),
                    forall|qx: int| x0 <= qx < px ==> self.pixel_is(qx, py as int, color),
                    forall|k: int|
                        0 <= k < old(self)@.len() && !old(self).covers(
                            x0 as int,
                            y0 as int,
                            x1 as int,
                            py as int,
                            k,
                        ) && !old(self).covers(x0 as int, py as int, px as int, py + 1, k) ==> self@[
                        k] == old(self)@[k],
                decreases x1 - px,
            {
                let ghost prev = *self;
                self.set_pixel(px as i32, py as i32, color);
                proof {
                    lemma_fill_step(old(self), &prev, self, x0 as int, y0 as int, x1 as int,
                        py as int, px as int, color);
                }
                px += 1;
            }
            py += 1;
        }
        proof {
            assert forall|px_: int, py_: int|
                x <= px_ < x + width && y <= py_ < y + height && old(self).in_bounds(
                px_,
                py_,
            ) implies self.pixel_is(px_, py_, color) by {
                assert(x0 <= px_ < x1 && y0 <= py_ < y1);
            }
            assert forall|k: int|
                0 <= k < old(self)@.len() && !old(self).covers(
                x as int,
                y as int,
                x + width,
                y + height,
                k,
            ) implies self@[k] == old(self)@[k] by {
                if old(self).covers(x0 as int, y0 as int, x1 as int, y1 as int, k) {
                    let (px_, py_) = choose|px_: int, py_: int|
                        x0 <= px_ < x1 && y0 <= py_ < y1 && old(self).in_bounds(px_, py_) && old(
                            self,
                        ).off(px_, py_) <= k < old(self).off(px_, py_) + old(self).bpp;
                    assert(x <= px_ < x + width && y <= py_ < y + height);
                }
            }
        }
    }

    /// Fill the whole screen with a colour.
    pub fn clear(&mut self, color: Color)
        requires
            old(self).wf(),
        ensures
            final(self).wf(),
            final(self).same_geometry(old(self)),
            final(self)@.len() == old(self)@.len(),
            forall|px: int, py: int|
                old(self).in_bounds(px, py) ==> final(self).pixel_is(px, py, color),
    {
        let w = self.width;
        let h = self.height;
        self.fill_rect(0, 0, w, h, color);
    }

    /// Draw a horizontal line: a one-pixel-high fill.
    pub fn draw_hline(&mut self, x: i32, y: i32, length: u32, color: Color)
        requires
            old(self).wf(),
        ensures
            final(self).wf(),
            final(self).same_geometry(old(self)),
            final(self)@.len() == old(self)@.len(),
            forall|px: int|
                x <= px < x + length && old(self).in_bounds(px, y as int)
                    ==> final(self).pixel_is(px, y as int, color),
            forall|k: int|
                0 <= k < old(self)@.len() && !old(self).covers(
                    x as int,
                    y as int,
                    x + length,
                    y + 1,
                    k,
                ) ==> final(self)@[k] == old(self)@[k],
    {
        self.fill_rect(x, y, length, 1, color);
    }

    /// Draw a vertical line: a one-pixel-wide fill.
    pub fn draw_vline(&mut self, x: i32, y: i32, length: u32, color: Color)
        requires
            old(self).wf(),
        ensures
            final(self).wf(),
            final(self).same_geometry(old(self)),
            final(self)@.len() == old(self)@.len(),
            forall|py: int|
                y <= py < y + length && old(self).in_bounds(x as int, py)
                    ==> final(self).pixel_is(x as int, py, color),
            forall|k: int|
                0 <= k < old(self)@.len() && !old(self).covers(
                    x as int,
                    y as int,
                    x + 1,
                    y + length,
                    k,
                ) ==> final(self)@[k] == old(self)@[k],
    {
        self.fill_rect(x, y, 1, length, color);
    }
}

impl Framebuffer {
    /// Draw a rectangle outline.  Only bytes of the rectangle's pixels
    /// change; every in-bounds border pixel gets the colour.
    pub fn draw_rect(&mut self, x: i32, y: i32, width: u32, height: u32, color: Color)
        requires
            old(self).wf(),
            width >= 1,
            height >= 1,
            -65536 <= x <= 65536,
            -65536 <= y <= 65536,
            width <= 65536,
            height <= 65536,
        ensures
            final(self).wf(),
            final(self).same_geometry(old(self)),
            final(self)@.len() == old(self)@.len(),
            forall|k: int|
                0 <= k < old(self)@.len() && !old(self).covers(
                    x as int,
                    y as int,
                    x + width,
                    y + height,
                    k,
                ) ==> final(self)@[k] == old(self)@[k],
            // every in-bounds pixel of the four edges holds the colour
            forall|px: int|
                x <= px < x + width && old(self).in_bounds(px, y as int) ==> final(self).pixel_is(
                    px,
                    y as int,
                    color,
                ),
            forall|px: int, py: int|
                #![trigger final(self).pixel_is(px, py, color)]
                x <= px < x + width && py == y + height - 1 && old(self).in_bounds(px, py)
                    ==> final(self).pixel_is(px, py, color),
            forall|py: int|
                y <= py < y + height && old(self).in_bounds(x as int, py)
                    ==> final(self).pixel_is(x as int, py, color),
            forall|px: int, py: int|
                #![trigger final(self).pixel_is(px, py, color)]
                y <= py < y + height && px == x + width - 1 && old(self).in_bounds(px, py)
                    ==> final(self).pixel_is(px, py, color),
    {
        let xw: i64 = (x as i64) + (width as i64) - 1;
        let yh: i64 = (y as i64) + (height as i64) - 1;
        let ghost rx0 = x as int;
        let ghost ry0 = y as int;
        let ghost rx1 = x + width;
        let ghost ry1 = y + height;
        let ghost g0 = *old(self);
        // Top
        self.draw_hline(x, y, width, color);
        proof {
            lemma_covers_mono(&g0, rx0, ry0, rx1, ry0 + 1, rx0, ry0, rx1, ry1);
        }
        let ghost g1 = *self;
        // Bottom
        self.draw_hline(x, yh as i32, width, color);
        proof {
            lemma_covers_mono(&g0, rx0, ry1 - 1, rx1, ry1, rx0, ry0, rx1, ry1);
            lemma_frame_compose(&g0, &g1, self, rx0, ry0, rx1, ry1);
            assert forall|px: int|
                rx0 <= px < rx1 && g0.in_bounds(px, ry0) implies self.pixel_is(px, ry0, color) by {
                assert(g1.in_bounds(px, ry0));
                if ry0 == ry1 - 1 {
                } else {
                    assert(g1.pixel_is(px, ry0, color));
                    lemma_pixel_preserved(&g0, &g1, self, rx0, ry1 - 1, rx1, ry1, px, ry0, color);
                }
            }
        }
        let ghost g2 = *self;
        // Left
        self.draw_vline(x, y, height, color);
        proof {
            lemma_covers_mono(&g0, rx0, ry0, rx0 + 1, ry1, rx0, ry0, rx1, ry1);
            lemma_frame_compose(&g0, &g2, self, rx0, ry0, rx1, ry1);
            assert forall|px: int|
                rx0 <= px < rx1 && g0.in_bounds(px, ry0) implies self.pixel_is(px, ry0, color) by {
                assert(g2.in_bounds(px, ry0));
                if px == rx0 {
                } else {
                    assert(g2.pixel_is(px, ry0, color));
                    lemma_pixel_preserved(&g0, &g2, self, rx0, ry0, rx0 + 1, ry1, px, ry0, color);
                }
            }
            assert forall|px: int, py: int|
                #![trigger self.pixel_is(px, py, color)]
                rx0 <= px < rx1 && py == ry1 - 1 && g0.in_bounds(px, py) implies self.pixel_is(
                px,
                py,
                color,
            ) by {
                assert(g2.in_bounds(px, py));
                if px == rx0 {
                } else {
                    assert((yh as i32) as int == ry1 - 1);
                    assert(g1.in_bounds(px, py));
                    assert(g2.pixel_is(px, py, color));
                    lemma_pixel_preserved(&g0, &g2, self, rx0, ry0, rx0 + 1, ry1, px, py, color);
                }
            }
        }
        let ghost g3 = *self;
        // Right
        self.draw_vline(xw as i32, y, height, color);
        proof {
            lemma_covers_mono(&g0, rx1 - 1, ry0, rx1, ry1, rx0, ry0, rx1, ry1);
            lemma_frame_compose(&g0, &g3, self, rx0, ry0, rx1, ry1);
            assert forall|px: int|
                rx0 <= px < rx1 && g0.in_bounds(px, ry0) implies self.pixel_is(px, ry0, color) by {
                assert(g3.in_bounds(px, ry0));
                if px == rx1 - 1 {
                } else {
                    assert(g3.pixel_is(px, ry0, color));
                    lemma_pixel_preserved(&g0, &g3, self, rx1 - 1, ry0, rx1, ry1, px, ry0, color);
                }
            }
            assert forall|px: int, py: int|
                #![trigger self.pixel_is(px, py, color)]
                rx0 <= px < rx1 && py == ry1 - 1 && g0.in_bounds(px, py) implies self.pixel_is(
                px,
                py,
                color,
            ) by {
                assert(g3.in_bounds(px, py));
                if px == rx1 - 1 {
                } else {
                    assert(g3.pixel_is(px, py, color));
                    lemma_pixel_preserved(&g0, &g3, self, rx1 - 1, ry0, rx1, ry1, px, py, color);
                }
            }
            assert forall|px: int, py: int|
                #![trigger self.pixel_is(px, py, color)]
                ry0 <= py < ry1 && px == rx1 - 1 && g0.in_bounds(px, py) implies self.pixel_is(
                px,
                py,
                color,
            ) by {
                assert((xw as i32) as int == rx1 - 1);
                assert(g3.in_bounds(px, py));
            }
            assert forall|py: int|
                ry0 <= py < ry1 && g0.in_bounds(rx0, py) implies self.pixel_is(rx0, py, color) by {
                assert(g3.in_bounds(rx0, py));
                if rx0 == rx1 - 1 {
                } else {
                    assert(g2.in_bounds(rx0, py));
                    assert(g3.pixel_is(rx0, py, color));
                    lemma_pixel_preserved(&g0, &g3, self, rx1 - 1, ry0, rx1, ry1, rx0, py, color);
                }
            }
        }
    }

    /// Draw a line between two points with Bresenham stepping, clipped to
    /// the screen.  Only bytes of pixels inside the endpoints' bounding
    /// box change.  The step count is bounded, as every spin in this
    /// kernel is.
    pub fn draw_line(&mut self, x0: i32, y0: i32, x1: i32, y1: i32, color: Color)
        requires
            old(self).wf(),
            -65536 <= x0 <= 65536,
            -65536 <= y0 <= 65536,
            -65536 <= x1 <= 65536,
            -65536 <= y1 <= 65536,
        ensures
            final(self).wf(),
            final(self).same_geometry(old(self)),
            final(self)@.len() == old(self)@.len(),
            forall|k: int|
                0 <= k < old(self)@.len() && !old(self).covers(
                    (if x0 <= x1 {
                        x0 as int
                    } else {
                        x1 as int
                    }),
                    (if y0 <= y1 {
                        y0 as int
                    } else {
                        y1 as int
                    }),
                    (if x0 <= x1 {
                        x1 as int
                    } else {
                        x0 as int
                    }) + 1,
                    (if y0 <= y1 {
                        y1 as int
                    } else {
                        y0 as int
                    }) + 1,
                    k,
                ) ==> final(self)@[k] == old(self)@[k],
            // the starting endpoint is painted
            old(self).in_bounds(x0 as int, y0 as int) ==> final(self).pixel_is(
                x0 as int,
                y0 as int,
                color,
            ),
            // a horizontal line paints its whole in-bounds row
            y0 == y1 ==> forall|qx: int, qy: int|
                #![trigger old(self).in_bounds(qx, qy)]
                (if x0 <= x1 {
                    x0 as int
                } else {
                    x1 as int
                }) <= qx < (if x0 <= x1 {
                    x1 as int
                } else {
                    x0 as int
                }) + 1 && qy == y0 as int && old(self).in_bounds(qx, qy) ==> final(self).pixel_is(
                    qx,
                    qy,
                    color,
                ),
            // a vertical line paints its whole in-bounds column
            x0 == x1 ==> forall|qx: int, qy: int|
                #![trigger old(self).in_bounds(qx, qy)]
                (if y0 <= y1 {
                    y0 as int
                } else {
                    y1 as int
                }) <= qy < (if y0 <= y1 {
                    y1 as int
                } else {
                    y0 as int
                }) + 1 && qx == x0 as int && old(self).in_bounds(qx, qy) ==> final(self).pixel_is(
                    qx,
                    qy,
                    color,
                ),
    {
        let ghost bx0: int = if x0 <= x1 {
            x0 as int
        } else {
            x1 as int
        };
        let ghost by0: int = if y0 <= y1 {
            y0 as int
        } else {
            y1 as int
        };
        let ghost bx1: int = (if x0 <= x1 {
            x1 as int
        } else {
            x0 as int
        }) + 1;
        let ghost by1: int = (if y0 <= y1 {
            y1 as int
        } else {
            y0 as int
        }) + 1;
        let dx: i64 = if x1 >= x0 {
            (x1 as i64) - (x0 as i64)
        } else {
            (x0 as i64) - (x1 as i64)
        };
        let dy: i64 = if y1 >= y0 {
            (y0 as i64) - (y1 as i64)
        } else {
            (y1 as i64) - (y0 as i64)
        };
        let sx: i64 = if x0 < x1 {
            1
        } else {
            -1
        };
        let sy: i64 = if y0 < y1 {
            1
        } else {
            -1
        };
        let mut err: i64 = dx + dy;

        let bxl: i64 = if x0 <= x1 {
            x0 as i64
        } else {
            x1 as i64
        };
        let bxh: i64 = (if x0 <= x1 {
            x1 as i64
        } else {
            x0 as i64
        }) + 1;
        let byl: i64 = if y0 <= y1 {
            y0 as i64
        } else {
            y1 as i64
        };
        let byh: i64 = (if y0 <= y1 {
            y1 as i64
        } else {
            y0 as i64
        }) + 1;
        let mut x: i64 = x0 as i64;
        let mut y: i64 = y0 as i64;
        let mut fuel: i64 = dx - dy + 1;

        let ghost g0 = *old(self);
        let ghost pre0 = *self;
        self.set_pixel(x0, y0, color);
        proof {
            lemma_write_in_region(&g0, &pre0, self, bx0, by0, bx1, by1, x0 as int, y0 as int);
        }
        while fuel > 0
            invariant
                self.wf(),
                self.same_geometry(&g0),
                self@.len() == g0@.len(),
                bxl == bx0 && bxh == bx1 && byl == by0 && byh == by1,
                dx == (if x0 <= x1 {
                    x1 - x0
                } else {
                    x0 - x1
                }),
                dy == (if y0 <= y1 {
                    y0 - y1
                } else {
                    y1 - y0
                }),
                sx == (if x0 < x1 {
                    1int
                } else {
                    -1int
                }),
                sy == (if y0 < y1 {
                    1int
                } else {
                    -1int
                }),
                bx0 == (if x0 <= x1 {
                    x0 as int
                } else {
                    x1 as int
                }),
                by0 == (if y0 <= y1 {
                    y0 as int
                } else {
                    y1 as int
                }),
                bx1 == (if x0 <= x1 {
                    x1 as int
                } else {
                    x0 as int
                }) + 1,
                by1 == (if y0 <= y1 {
                    y1 as int
                } else {
                    y0 as int
                }) + 1,
                -65536 <= bx0 && bx1 <= 65537,
                -65536 <= by0 && by1 <= 65537,
                bx0 <= x < bx1,
                by0 <= y < by1,
                -1000000 <= err <= 1000000,
                0 <= dx <= 131072,
                -131072 <= dy <= 0,
                sx == 1 || sx == -1,
                sy == 1 || sy == -1,
                fuel <= 262146,
                forall|k: int|
                    0 <= k < g0@.len() && !g0.covers(bx0, by0, bx1, by1, k) ==> self@[k] == g0@[k],
                g0.in_bounds(x0 as int, y0 as int) ==> self.pixel_is(x0 as int, y0 as int, color),
                y0 == y1 && x0 != x1 ==> y == y0 as i64 && err == dx && fuel == dx + 1 - (if sx
                    == 1 {
                    x - x0
                } else {
                    (x0 as i64) - x
                }),
                y0 == y1 && x0 != x1 ==> forall|qx: int, qy: int|
                    #![trigger g0.in_bounds(qx, qy)]
                    bx0 <= qx < bx1 && qy == y0 as int && (if sx == 1 {
                        qx < x as int
                    } else {
                        qx > x as int
                    }) && g0.in_bounds(qx, qy) ==> self.pixel_is(qx, qy, color),
                x0 == x1 && y0 != y1 ==> x == x0 as i64 && err == dy && fuel == 1 - dy - (if sy
                    == 1 {
                    y - y0
                } else {
                    (y0 as i64) - y
                }),
                x0 == x1 && y0 != y1 ==> forall|qx: int, qy: int|
                    #![trigger g0.in_bounds(qx, qy)]
                    by0 <= qy < by1 && qx == x0 as int && (if sy == 1 {
                        qy < y as int
                    } else {
                        qy > y as int
                    }) && g0.in_bounds(qx, qy) ==> self.pixel_is(qx, qy, color),
            ensures
                self.wf(),
                self.same_geometry(&g0),
                self@.len() == g0@.len(),
                forall|k: int|
                    0 <= k < g0@.len() && !g0.covers(bx0, by0, bx1, by1, k) ==> self@[k] == g0@[k],
                g0.in_bounds(x0 as int, y0 as int) ==> self.pixel_is(x0 as int, y0 as int, color),
                y0 == y1 ==> forall|qx: int, qy: int|
                    #![trigger g0.in_bounds(qx, qy)]
                    bx0 <= qx < bx1 && qy == y0 as int && g0.in_bounds(qx, qy)
                        ==> self.pixel_is(qx, qy, color),
                x0 == x1 ==> forall|qx: int, qy: int|
                    #![trigger g0.in_bounds(qx, qy)]
                    by0 <= qy < by1 && qx == x0 as int && g0.in_bounds(qx, qy)
                        ==> self.pixel_is(qx, qy, color),
            decreases fuel,
        {
            let ghost prev = *self;
            self.set_pixel(x as i32, y as i32, color);
            proof {
                lemma_write_in_region(&g0, &prev, self, bx0, by0, bx1, by1, x as int, y as int);
                let wx = (x as i32) as int;
                let wy = (y as i32) as int;
                assert(wx == x as int);
                assert(wy == y as int);
                if g0.in_bounds(x0 as int, y0 as int) {
                    if wx == x0 as int && wy == y0 as int {
                        assert(prev.in_bounds(wx, wy));
                        assert(self.pixel_is(x0 as int, y0 as int, color));
                    } else {
                        assert(prev.pixel_is(x0 as int, y0 as int, color));
                        lemma_pixel_kept_after_write(&g0, &prev, self, wx, wy, x0 as int,
                            y0 as int, color);
                    }
                }
                if y0 == y1 && x0 != x1 {
                    assert forall|qx: int, qy: int|
                        #![trigger g0.in_bounds(qx, qy)]
                        bx0 <= qx < bx1 && qy == y0 as int && (if sx == 1 {
                            qx <= x as int
                        } else {
                            qx >= x as int
                        }) && g0.in_bounds(qx, qy) implies self.pixel_is(qx, qy, color) by {
                        if qx == x as int {
                            assert(prev.in_bounds(qx, qy));
                            assert(self.pixel_is(wx, wy, color));
                        } else {
                            assert(prev.pixel_is(qx, qy, color));
                            lemma_pixel_kept_after_write(&g0, &prev, self, wx, wy, qx, qy, color);
                        }
                    }
                }
                if x0 == x1 && y0 != y1 {
                    assert forall|qx: int, qy: int|
                        #![trigger g0.in_bounds(qx, qy)]
                        by0 <= qy < by1 && qx == x0 as int && (if sy == 1 {
                            qy <= y as int
                        } else {
                            qy >= y as int
                        }) && g0.in_bounds(qx, qy) implies self.pixel_is(qx, qy, color) by {
                        if qy == y as int {
                            assert(prev.in_bounds(qx, qy));
                            assert(self.pixel_is(wx, wy, color));
                        } else {
                            assert(prev.pixel_is(qx, qy, color));
                            lemma_pixel_kept_after_write(&g0, &prev, self, wx, wy, qx, qy, color);
                        }
                    }
                }
            }

            if x == (x1 as i64) && y == (y1 as i64) {
                break ;
            }

            let e2: i64 = if err >= -500000 && err <= 500000 {
                2 * err
            } else {
                err
            };
            if e2 >= dy {
                err = if err >= dy {
                    err + dy
                } else {
                    err
                };
                if x + sx < bxh && x + sx >= bxl {
                    x = x + sx;
                }
            }
            if e2 <= dx {
                err = if err <= 1000000 - dx {
                    err + dx
                } else {
                    err
                };
                if y + sy < byh && y + sy >= byl {
                    y = y + sy;
                }
            }
            fuel = fuel - 1;
        }
    }

    /// Draw a single 8x16 glyph cell.  Only bytes of the cell's pixels
    /// change; the glyph artwork itself is out of the kernel's scope.
    pub fn draw_char(&mut self, x: i32, y: i32, c: char, fg: Color, bg: Option<Color>)
        requires
            old(self).wf(),
            -65536 <= x <= 65536,
            -65536 <= y <= 65536,
        ensures
            final(self).wf(),
            final(self).same_geometry(old(self)),
            final(self)@.len() == old(self)@.len(),
            forall|k: int|
                0 <= k < old(self)@.len() && !old(self).covers(
                    x as int,
                    y as int,
                    x + 8,
                    y + 16,
                    k,
                ) ==> final(self)@[k] == old(self)@[k],
    {
        let code: u8 = if (c as u32) < 128 {
            c as u8
        } else {
            0xFE
        };
        let glyph = font::get_char(code);
        let ghost g0 = *old(self);
        let mut row: usize = 0;
        while row < 16
            invariant
                self.wf(),
                self.same_geometry(&g0),
                self@.len() == g0@.len(),
                row <= 16,
                glyph@.len() == 16,
                -65536 <= x <= 65536,
                -65536 <= y <= 65536,
                forall|k: int|
                    0 <= k < g0@.len() && !g0.covers(x as int, y as int, x + 8, y + 16, k)
                        ==> self@[k] == g0@[k],
            decreases 16 - row,
        {
            let bits = glyph[row];
            let mut col: usize = 0;
            while col < 8
                invariant
                    self.wf(),
                    self.same_geometry(&g0),
                    self@.len() == g0@.len(),
                    row < 16,
                    col <= 8,
                    -65536 <= x <= 65536,
                    -65536 <= y <= 65536,
                    forall|k: int|
                        0 <= k < g0@.len() && !g0.covers(x as int, y as int, x + 8, y + 16, k)
                            ==> self@[k] == g0@[k],
                decreases 8 - col,
            {
                let px = x + col as i32;
                let py = y + row as i32;
                let bit_set = (bits >> (7 - col as u32) as u8) & 1 != 0;
                let ghost prev = *self;
                if bit_set {
                    self.set_pixel(px, py, fg);
                    proof {
                        lemma_write_in_region(&g0, &prev, self, x as int, y as int, x + 8, y + 16,
                            px as int, py as int);
                    }
                } else {
                    match bg {
                        Some(bg_color) => {
                            self.set_pixel(px, py, bg_color);
                            proof {
                                lemma_write_in_region(&g0, &prev, self, x as int, y as int, x + 8,
                                    y + 16, px as int, py as int);
                            }
                        },
                        None => {},
                    }
                }
                col += 1;
            }
            row += 1;
        }
    }

    /// Draw a string of 8x16 glyph cells, honouring newline, carriage
    /// return and tab.  Only bytes inside the band of rows the text can
    /// reach change.
    pub fn draw_string(&mut self, x: i32, y: i32, s: &str, fg: Color, bg: Option<Color>)
        requires
            old(self).wf(),
            -1100000 <= x <= 1100000,
            -1100000 <= y <= 1100000,
        ensures
            final(self).wf(),
            final(self).same_geometry(old(self)),
            final(self)@.len() == old(self)@.len(),
            forall|k: int|
                0 <= k < old(self)@.len() && !old(self).covers(
                    0,
                    y as int,
                    old(self).width as int,
                    old(self).height as int,
                    k,
                ) ==> final(self)@[k] == old(self)@[k],
    {
        let n = s.unicode_len();
        let mut cx: i64 = x as i64;
        let mut cy: i64 = y as i64;
        let ghost g0 = *old(self);
        let mut i: usize = 0;
        while i < n
            invariant
                self.wf(),
                self.same_geometry(&g0),
                self@.len() == g0@.len(),
                i <= n,
                n == s@.len(),
                -1100000 <= x <= 1100000,
                -1100000 <= y <= 1100000,
                x <= cx <= 0x7FFFFFFF,
                y <= cy <= 0x7FFFFFFF,
                forall|k: int|
                    0 <= k < g0@.len() && !g0.covers(0, y as int, g0.width as int,
                    g0.height as int, k) ==> self@[k] == g0@[k],
            decreases n - i,
        {
            let c = s.get_char(i);
            if c == '\n' {
                cx = x as i64;
                if cy <= 0x7FFFFFFF - 16 {
                    cy = cy + 16;
                }
            } else if c == '\r' {
                cx = x as i64;
            } else if c == '\t' {
                if cx <= 0x7FFFFFFF - 32 {
                    cx = cx + 32;
                }
            } else {
                if cx + 8 <= self.width as i64 && cx <= 65536 && cy <= 65536 && cy >= -65536
                    && cx >= -65536 {
                    let ghost prev = *self;
                    self.draw_char(cx as i32, cy as i32, c, fg, bg);
                    proof {
                        lemma_cell_frame(&g0, &prev, self, cx as int, cy as int, y as int);
                    }
                }
                if cx <= 0x7FFFFFFF - 8 {
                    cx = cx + 8;
                }
            }
            i += 1;
        }
    }

    /// Measure string width in pixels: 8 per glyph, 32 per tab, longest
    /// line wins.
    pub fn measure_string(&self, s: &str) -> (r: u32)
        requires
            s@.len() <= 65536,
    {
        let n = s.unicode_len();
        let mut width: u32 = 0;
        let mut max_width: u32 = 0;
        let mut i: usize = 0;
        while i < n
            invariant
                i <= n,
                n == s@.len(),
                n <= 65536,
                width <= 32 * i,
                max_width <= 32 * i,
            decreases n - i,
        {
            let c = s.get_char(i);
            if c == '\n' {
                if width > max_width {
                    max_width = width;
                }
                width = 0;
            } else if c == '\t' {
                width = width + 32;
            } else {
                width = width + 8;
            }
            i += 1;
        }
        if width > max_width {
            max_width = width;
        }
        max_width
    }

    /// Copy a rectangular region from another framebuffer (blit).  Only
    /// bytes of the destination rectangle's pixels change.
    pub fn blit(&mut self, src: &Framebuffer, src_rect: Rect, dst_x: i32, dst_y: i32)
        requires
            old(self).wf(),
            src.wf(),
            src_rect.width <= 8192,
            src_rect.height <= 8192,
            -65536 <= src_rect.x <= 65536,
            -65536 <= src_rect.y <= 65536,
            -65536 <= dst_x <= 65536,
            -65536 <= dst_y <= 65536,
        ensures
            final(self).wf(),
            final(self).same_geometry(old(self)),
            final(self)@.len() == old(self)@.len(),
            forall|k: int|
                0 <= k < old(self)@.len() && !old(self).covers(
                    dst_x as int,
                    dst_y as int,
                    dst_x + src_rect.width,
                    dst_y + src_rect.height,
                    k,
                ) ==> final(self)@[k] == old(self)@[k],
            // every destination pixel under the rectangle gets the source's colour
            forall|px: int, py: int|
                #![trigger old(self).in_bounds(px, py)]
                dst_x <= px < dst_x + src_rect.width && dst_y <= py < dst_y + src_rect.height
                    && old(self).in_bounds(px, py) ==> (src.spec_get_pixel(
                    src_rect.x + (px - dst_x),
                    src_rect.y + (py - dst_y),
                ) matches Some(c) ==> final(self).pixel_is(px, py, c)),
    {
        let ghost g0 = *old(self);
        let mut sy: u32 = 0;
        while sy < src_rect.height
            invariant
                self.wf(),
                self.same_geometry(&g0),
                self@.len() == g0@.len(),
                src.wf(),
                sy <= src_rect.height,
                src_rect.width <= 8192,
                src_rect.height <= 8192,
                -65536 <= src_rect.x <= 65536,
                -65536 <= src_rect.y <= 65536,
                -65536 <= dst_x <= 65536,
                -65536 <= dst_y <= 65536,
                forall|k: int|
                    0 <= k < g0@.len() && !g0.covers(dst_x as int, dst_y as int, dst_x
                        + src_rect.width, dst_y + src_rect.height, k) ==> self@[k] == g0@[k],
                forall|px: int, py: int|
                    #![trigger g0.in_bounds(px, py)]
                    dst_x <= px < dst_x + src_rect.width && dst_y <= py < dst_y + sy
                        && g0.in_bounds(px, py) ==> (src.spec_get_pixel(
                        src_rect.x + (px - dst_x),
                        src_rect.y + (py - dst_y),
                    ) matches Some(c) ==> self.pixel_is(px, py, c)),
            decreases src_rect.height - sy,
        {
            let mut sx: u32 = 0;
            while sx < src_rect.width
                invariant
                    self.wf(),
                    self.same_geometry(&g0),
                    self@.len() == g0@.len(),
                    src.wf(),
                    sy < src_rect.height,
                    sx <= src_rect.width,
                    src_rect.width <= 8192,
                    src_rect.height <= 8192,
                    -65536 <= src_rect.x <= 65536,
                    -65536 <= src_rect.y <= 65536,
                    -65536 <= dst_x <= 65536,
                    -65536 <= dst_y <= 65536,
                    forall|k: int|
                        0 <= k < g0@.len() && !g0.covers(dst_x as int, dst_y as int, dst_x
                            + src_rect.width, dst_y + src_rect.height, k) ==> self@[k] == g0@[k],
                    forall|px: int, py: int|
                        #![trigger g0.in_bounds(px, py)]
                        dst_x <= px < dst_x + src_rect.width && dst_y <= py < dst_y + sy
                            && g0.in_bounds(px, py) ==> (src.spec_get_pixel(
                            src_rect.x + (px - dst_x),
                            src_rect.y + (py - dst_y),
                        ) matches Some(c) ==> self.pixel_is(px, py, c)),
                    forall|px: int, py: int|
                        #![trigger g0.in_bounds(px, py)]
                        dst_x <= px < dst_x + sx && py == dst_y + sy && g0.in_bounds(px, py)
                            ==> (src.spec_get_pixel(
                            src_rect.x + (px - dst_x),
                            src_rect.y + (py - dst_y),
                        ) matches Some(c) ==> self.pixel_is(px, py, c)),
                decreases src_rect.width - sx,
            {
                let sx_abs: i64 = (src_rect.x as i64) + (sx as i64);
                let sy_abs: i64 = (src_rect.y as i64) + (sy as i64);
                if sx_abs >= -0x80000000 && sx_abs <= 0x7FFFFFFF && sy_abs >= -0x80000000
                    && sy_abs <= 0x7FFFFFFF {
                    match src.get_pixel(sx_abs as i32, sy_abs as i32) {
                        Some(color) => {
                            let px: i64 = (dst_x as i64) + (sx as i64);
                            let py: i64 = (dst_y as i64) + (sy as i64);
                            let ghost prev = *self;
                            self.set_pixel(px as i32, py as i32, color);
                            proof {
                                lemma_write_in_region(&g0, &prev, self, dst_x as int,
                                    dst_y as int, dst_x + src_rect.width, dst_y + src_rect.height,
                                    px as int, py as int);
                                let wx = (px as i32) as int;
                                let wy = (py as i32) as int;
                                assert(wx == dst_x + sx);
                                assert(wy == dst_y + sy);
                                assert((sx_abs as i32) as int == src_rect.x + sx);
                                assert((sy_abs as i32) as int == src_rect.y + sy);
                                assert forall|qx: int, qy: int|
                                    #![trigger g0.in_bounds(qx, qy)]
                                    dst_x <= qx < dst_x + src_rect.width && dst_y <= qy < dst_y
                                        + sy && g0.in_bounds(qx, qy) implies (src.spec_get_pixel(
                                    src_rect.x + (qx - dst_x),
                                    src_rect.y + (qy - dst_y),
                                ) matches Some(cc) ==> self.pixel_is(qx, qy, cc)) by {
                                    match src.spec_get_pixel(src_rect.x + (qx - dst_x),
                                        src_rect.y + (qy - dst_y)) {
                                        Some(cc) => {
                                            assert(prev.pixel_is(qx, qy, cc));
                                            lemma_pixel_kept_after_write(&g0, &prev, self, wx, wy,
                                                qx, qy, cc);
                                        },
                                        None => {},
                                    }
                                }
                                assert forall|qx: int, qy: int|
                                    #![trigger g0.in_bounds(qx, qy)]
                                    dst_x <= qx < dst_x + sx + 1 && qy == dst_y + sy
                                        && g0.in_bounds(qx, qy) implies (src.spec_get_pixel(
                                    src_rect.x + (qx - dst_x),
                                    src_rect.y + (qy - dst_y),
                                ) matches Some(cc) ==> self.pixel_is(qx, qy, cc)) by {
                                    match src.spec_get_pixel(src_rect.x + (qx - dst_x),
                                        src_rect.y + (qy - dst_y)) {
                                        Some(cc) => {
                                            if qx == dst_x + sx {
                                                assert(cc == color);
                                                assert(prev.in_bounds(wx, wy));
                                                assert(self.pixel_is(wx, wy, color));
                                            } else {
                                                assert(prev.pixel_is(qx, qy, cc));
                                                lemma_pixel_kept_after_write(&g0, &prev, self, wx,
                                                    wy, qx, qy, cc);
                                            }
                                        },
                                        None => {},
                                    }
                                }
                            }
                        },
                        None => {},
                    }
                }
                sx += 1;
            }
            sy += 1;
        }
    }

    /// Draw a raised or sunken 3D-style border.  Only bytes of the
    /// rectangle's pixels change.
    pub fn draw_3d_rect(&mut self, x: i32, y: i32, w: u32, h: u32, raised: bool)
        requires
            old(self).wf(),
            w >= 1,
            h >= 1,
            -65536 <= x <= 65536,
            -65536 <= y <= 65536,
            w <= 65536,
            h <= 65536,
        ensures
            final(self).wf(),
            final(self).same_geometry(old(self)),
            final(self)@.len() == old(self)@.len(),
            forall|k: int|
                0 <= k < old(self)@.len() && !old(self).covers(x as int, y as int, x + w, y + h, k)
                    ==> final(self)@[k] == old(self)@[k],
    {
        let tl = if raised {
            Color { r: 255, g: 255, b: 255 }
        } else {
            Color { r: 102, g: 102, b: 102 }
        };
        let br = if raised {
            Color { r: 102, g: 102, b: 102 }
        } else {
            Color { r: 255, g: 255, b: 255 }
        };
        let ghost rx0 = x as int;
        let ghost ry0 = y as int;
        let ghost rx1 = x + w;
        let ghost ry1 = y + h;
        let ghost g0 = *old(self);

        // Top-left edges (light)
        self.draw_hline(x, y, w, tl);
        proof {
            lemma_covers_mono(&g0, rx0, ry0, rx1, ry0 + 1, rx0, ry0, rx1, ry1);
        }
        let ghost g1 = *self;
        self.draw_vline(x, y, h, tl);
        proof {
            lemma_covers_mono(&g0, rx0, ry0, rx0 + 1, ry1, rx0, ry0, rx1, ry1);
            lemma_frame_compose(&g0, &g1, self, rx0, ry0, rx1, ry1);
        }
        let ghost g2 = *self;

        // Bottom-right edges (dark)
        let yh: i64 = (y as i64) + (h as i64) - 1;
        let xw: i64 = (x as i64) + (w as i64) - 1;
        self.draw_hline(x, yh as i32, w, br);
        proof {
            lemma_covers_mono(&g0, rx0, ry1 - 1, rx1, ry1, rx0, ry0, rx1, ry1);
            lemma_frame_compose(&g0, &g2, self, rx0, ry0, rx1, ry1);
        }
        let ghost g3 = *self;
        self.draw_vline(xw as i32, y, h, br);
        proof {
            lemma_covers_mono(&g0, rx1 - 1, ry0, rx1, ry1, rx0, ry0, rx1, ry1);
            lemma_frame_compose(&g0, &g3, self, rx0, ry0, rx1, ry1);
        }
    }

    /// Copy the whole contents of another framebuffer of the same shape,
    /// for double buffering; with equal pitches the whole byte array is
    /// taken over, otherwise row contents are copied and the padding
    /// between rows keeps the destination's bytes.  Buffers of different
    /// shapes are left alone.
    pub fn copy_from(&mut self, src: &Framebuffer)
        requires
            old(self).wf(),
            src.wf(),
        ensures
            final(self).wf(),
            final(self).same_geometry(old(self)),
            final(self)@.len() == old(self)@.len(),
            !(old(self).width == src.width && old(self).height == src.height && old(self).bpp
                == src.bpp) ==> final(self)@ == old(self)@,
            (old(self).width == src.width && old(self).height == src.height && old(self).bpp
                == src.bpp && old(self).pitch == src.pitch) ==> final(self)@ == src@,
            (old(self).width == src.width && old(self).height == src.height && old(self).bpp
                == src.bpp && old(self).pitch != src.pitch) ==> {
                &&& forall|yy: int, j: int|
                    0 <= yy < old(self).height && 0 <= j < old(self).width * old(self).bpp
                        ==> #[trigger] final(self)@[yy * old(self).pitch + j] == src@[yy
                        * src.pitch + j]
                &&& forall|k: int|
                    0 <= k < old(self)@.len() && !old(self).covers(
                        0,
                        0,
                        old(self).width as int,
                        old(self).height as int,
                        k,
                    ) ==> final(self)@[k] == old(self)@[k]
            },
    {
        if self.width != src.width || self.height != src.height || self.bpp != src.bpp {
            return ;
        }

        if self.pitch == src.pitch {
            self.data = clone_bytes(&src.data);
            proof {
                assert(self@ =~= src@);
            }
        } else {
            let row_bytes = (self.width as usize) * (self.bpp as usize);
            let ghost g0 = *old(self);
            let mut yy: u32 = 0;
            while yy < self.height
                invariant
                    self.wf(),
                    src.wf(),
                    self.same_geometry(&g0),
                    self@.len() == g0@.len(),
                    g0.width == src.width && g0.height == src.height && g0.bpp == src.bpp,
                    row_bytes == g0.width * g0.bpp,
                    yy <= g0.height,
                    forall|qy: int, j: int|
                        0 <= qy < yy && 0 <= j < row_bytes ==> #[trigger] self@[qy * g0.pitch + j]
                            == src@[qy * src.pitch + j],
                    forall|k: int|
                        0 <= k < g0@.len() && !g0.covers(0, 0, g0.width as int, g0.height as int, k)
                            ==> self@[k] == g0@[k],
                decreases g0.height - yy,
            {
                let ghost rowpre = *self;
                copy_row(self, src, yy as usize, row_bytes);
                proof {
                    lemma_row_in_region(&g0, &rowpre, self, yy as int, row_bytes as int);
                    let gp = g0.pitch as int;
                    let sp = src.pitch as int;
                    let rb = row_bytes as int;
                    assert forall|qy: int, j: int|
                        0 <= qy < yy + 1 && 0 <= j < rb implies #[trigger] self@[qy * gp + j]
                        == src@[qy * sp + j] by {
                        if qy < yy {
                            assert(0 <= qy * gp + j && qy * gp + j < (yy as int) * gp && (
                            yy as int) * gp + rb <= (g0.height as int) * gp) by (nonlinear_arith)
                                requires
                                    0 <= qy < yy as int,
                                    (yy as int) < g0.height as int,
                                    0 <= j < rb,
                                    0 < rb <= gp,
                                    0 <= gp,
                            ;
                            assert((g0.height as int) * gp == g0@.len()) by (nonlinear_arith)
                                requires
                                    g0@.len() == g0.pitch * g0.height,
                                    gp == g0.pitch as int,
                            ;
                            assert(0 <= qy * gp + j < g0@.len());
                            assert(!((yy as usize) * rowpre.pitch <= qy * gp + j < (yy as usize)
                                * rowpre.pitch + row_bytes));
                            assert(self@[qy * gp + j] == rowpre@[qy * gp + j]);
                            assert(rowpre@[qy * gp + j] == src@[qy * sp + j]);
                        } else {
                            assert(rowpre.pitch == gp);
                            assert((yy as usize) * rowpre.pitch == qy * gp);
                            assert((yy as usize) * src.pitch == qy * sp);
                            assert(self@[(yy as usize) * rowpre.pitch + j] == src@[(yy as usize)
                                * src.pitch + j]);
                        }
                    }
                }
                yy += 1;
            }
        }
    }
}

/// A helper for `copy_from`'s slow path: copy one row's content bytes.
fn copy_row(dst: &mut Framebuffer, src: &Framebuffer, yy: usize, row_bytes: usize)
    requires
        old(dst).wf(),
        src.wf(),
        yy < old(dst).height,
        yy < src.height,
        row_bytes == old(dst).width * old(dst).bpp,
        old(dst).width == src.width,
        old(dst).bpp == src.bpp,
    ensures
        final(dst).wf(),
        final(dst).same_geometry(old(dst)),
        final(dst)@.len() == old(dst)@.len(),
        forall|j: int|
            0 <= j < row_bytes ==> #[trigger] final(dst)@[yy * old(dst).pitch + j] == src@[yy
                * src.pitch + j],
        forall|k: int|
            0 <= k < old(dst)@.len() && !(yy * old(dst).pitch <= k < yy * old(dst).pitch
                + row_bytes) ==> final(dst)@[k] == old(dst)@[k],
{
    proof {
        let dh = old(dst).height as int;
        let dp = old(dst).pitch as int;
        let sh = src.height as int;
        let sp = src.pitch as int;
        let yi = yy as int;
        let rb = row_bytes as int;
        assert(yi * dp + rb <= dp * dh && 0 <= yi * dp) by (nonlinear_arith)
            requires
                0 <= yi < dh,
                rb <= dp,
                0 <= dp,
        ;
        assert(yi * sp + rb <= sp * sh && 0 <= yi * sp) by (nonlinear_arith)
            requires
                0 <= yi < sh,
                rb <= sp,
                0 <= sp,
        ;
    }
    let dst_off = yy * (dst.pitch as usize);
    let src_off = yy * (src.pitch as usize);
    let mut j: usize = 0;
    while j < row_bytes
        invariant
            dst.wf(),
            src.wf(),
            dst.same_geometry(old(dst)),
            dst@.len() == old(dst)@.len(),
            j <= row_bytes,
            dst_off == yy * old(dst).pitch,
            src_off == yy * src.pitch,
            dst_off + row_bytes <= dst@.len(),
            src_off + row_bytes <= src@.len(),
            forall|i: int| 0 <= i < j ==> #[trigger] dst@[dst_off + i] == src@[src_off + i],
            forall|k: int|
                0 <= k < old(dst)@.len() && !(dst_off <= k < dst_off + row_bytes) ==> dst@[k]
                    == old(dst)@[k],
        decreases row_bytes - j,
    {
        let b = src.data[src_off + j];
        dst.data.set(dst_off + j, b);
        j += 1;
    }
}

/// A whole row's content bytes lie inside the full-screen pixel region.
proof fn lemma_row_in_region(g0: &Framebuffer, prev: &Framebuffer, cur: &Framebuffer, yy: int,
    row_bytes: int)
    requires
        g0.wf(),
        prev.wf(),
        cur.wf(),
        prev.same_geometry(g0),
        cur.same_geometry(g0),
        prev@.len() == g0@.len(),
        cur@.len() == g0@.len(),
        0 <= yy < g0.height,
        row_bytes == g0.width * g0.bpp,
        forall|k: int|
            0 <= k < prev@.len() && !(yy * g0.pitch <= k < yy * g0.pitch + row_bytes) ==> cur@[k]
                == prev@[k],
        forall|k: int|
            0 <= k < g0@.len() && !g0.covers(0, 0, g0.width as int, g0.height as int, k)
                ==> prev@[k] == g0@[k],
    ensures
        forall|k: int|
            0 <= k < g0@.len() && !g0.covers(0, 0, g0.width as int, g0.height as int, k) ==> cur@[
            k] == g0@[k],
{
    assert forall|k: int|
        0 <= k < g0@.len() && !g0.covers(0, 0, g0.width as int, g0.height as int, k) implies cur@[
    k] == g0@[k] by {
        if yy * g0.pitch <= k < yy * g0.pitch + row_bytes {
            let rel = k - yy * g0.pitch;
            let px = rel / (g0.bpp as int);
            assert(0 <= px < g0.width && px * g0.bpp <= rel < px * g0.bpp + g0.bpp)
                by (nonlinear_arith)
                requires
                    0 <= rel < g0.width * g0.bpp,
                    px == rel / (g0.bpp as int),
                    0 < g0.bpp,
            ;
            assert(g0.off(px, yy) <= k < g0.off(px, yy) + g0.bpp);
            assert(0 <= px < g0.width && 0 <= yy < g0.height && g0.in_bounds(px, yy));
            assert(g0.covers(0, 0, g0.width as int, g0.height as int, k));
        }
    }
}

/// Clone a byte vector.
fn clone_bytes(v: &Vec<u8>) -> (r: Vec<u8>)
    ensures
        r@ == v@,
{
    let mut r: Vec<u8> = Vec::new();
    let n = v.len();
    let mut i: usize = 0;
    while i < n
        invariant
            i <= n,
            n == v@.len(),
            r@.len() == i,
            forall|j: int| 0 <= j < i ==> r@[j] == v@[j],
        decreases n - i,
    {
        r.push(v[i]);
        i += 1;
    }
    proof {
        assert(r@ =~= v@);
    }
    r
}

/// Covering by a sub-rectangle implies covering by the enclosing one.
proof fn lemma_covers_mono(
    fb: &Framebuffer,
    ax0: int,
    ay0: int,
    ax1: int,
    ay1: int,
    bx0: int,
    by0: int,
    bx1: int,
    by1: int,
)
    requires
        bx0 <= ax0,
        by0 <= ay0,
        ax1 <= bx1,
        ay1 <= by1,
    ensures
        forall|k: int| fb.covers(ax0, ay0, ax1, ay1, k) ==> #[trigger] fb.covers(
            bx0,
            by0,
            bx1,
            by1,
            k,
        ),
{
    assert forall|k: int| fb.covers(ax0, ay0, ax1, ay1, k) implies #[trigger] fb.covers(
        bx0,
        by0,
        bx1,
        by1,
        k,
    ) by {
        let (px, py) = choose|px: int, py: int|
            ax0 <= px < ax1 && ay0 <= py < ay1 && fb.in_bounds(px, py) && fb.off(px, py) <= k
                < fb.off(px, py) + fb.bpp;
        assert(bx0 <= px < bx1 && by0 <= py < by1 && fb.in_bounds(px, py) && fb.off(px, py) <= k
            < fb.off(px, py) + fb.bpp);
    }
}

/// Framing composes: two successive writes inside a region stay inside it.
proof fn lemma_frame_compose(
    g0: &Framebuffer,
    mid: &Framebuffer,
    cur: &Framebuffer,
    rx0: int,
    ry0: int,
    rx1: int,
    ry1: int,
)
    requires
        mid@.len() == g0@.len(),
        cur@.len() == g0@.len(),
        mid.same_geometry(g0),
        cur.same_geometry(g0),
        forall|k: int|
            0 <= k < g0@.len() && !g0.covers(rx0, ry0, rx1, ry1, k) ==> mid@[k] == g0@[k],
        forall|k: int|
            0 <= k < mid@.len() && !mid.covers(rx0, ry0, rx1, ry1, k) ==> cur@[k] == mid@[k],
    ensures
        forall|k: int|
            0 <= k < g0@.len() && !g0.covers(rx0, ry0, rx1, ry1, k) ==> cur@[k] == g0@[k],
{
    assert forall|k: int|
        0 <= k < g0@.len() && !g0.covers(rx0, ry0, rx1, ry1, k) implies cur@[k] == g0@[k] by {
        assert(!mid.covers(rx0, ry0, rx1, ry1, k)) by {
            if mid.covers(rx0, ry0, rx1, ry1, k) {
                let (px, py) = choose|px: int, py: int|
                    rx0 <= px < rx1 && ry0 <= py < ry1 && mid.in_bounds(px, py) && mid.off(
                        px,
                        py,
                    ) <= k < mid.off(px, py) + mid.bpp;
                assert(g0.in_bounds(px, py) && g0.off(px, py) <= k < g0.off(px, py) + g0.bpp);
                assert(g0.covers(rx0, ry0, rx1, ry1, k));
            }
        }
    }
}

/// A glyph-cell write below row `ytop` keeps the band framing: bytes
/// outside the band of rows from `ytop` down stay what they were.
proof fn lemma_cell_frame(
    g0: &Framebuffer,
    prev: &Framebuffer,
    cur: &Framebuffer,
    cx: int,
    cy: int,
    ytop: int,
)
    requires
        g0.wf(),
        prev.same_geometry(g0),
        cur.same_geometry(g0),
        prev@.len() == g0@.len(),
        cur@.len() == g0@.len(),
        ytop <= cy,
        forall|k: int|
            0 <= k < g0@.len() && !g0.covers(0, ytop, g0.width as int, g0.height as int, k)
                ==> prev@[k] == g0@[k],
        forall|k: int|
            0 <= k < prev@.len() && !prev.covers(cx, cy, cx + 8, cy + 16, k) ==> cur@[k] == prev@[
            k],
    ensures
        forall|k: int|
            0 <= k < g0@.len() && !g0.covers(0, ytop, g0.width as int, g0.height as int, k)
                ==> cur@[k] == g0@[k],
{
    assert forall|k: int|
        0 <= k < g0@.len() && !g0.covers(0, ytop, g0.width as int, g0.height as int, k) implies
    cur@[k] == g0@[k] by {
        assert(!prev.covers(cx, cy, cx + 8, cy + 16, k)) by {
            if prev.covers(cx, cy, cx + 8, cy + 16, k) {
                let (qx, qy) = choose|qx: int, qy: int|
                    cx <= qx < cx + 8 && cy <= qy < cy + 16 && prev.in_bounds(qx, qy) && prev.off(
                        qx,
                        qy,
                    ) <= k < prev.off(qx, qy) + prev.bpp;
                assert(0 <= qx < g0.width && ytop <= qy < g0.height && g0.in_bounds(qx, qy)
                    && g0.off(qx, qy) <= k < g0.off(qx, qy) + g0.bpp);
                assert(g0.covers(0, ytop, g0.width as int, g0.height as int, k));
            }
        }
    }
}

/// A single pixel write inside a region keeps the region framing.
pub proof fn lemma_write_in_region(
    g0: &Framebuffer,
    prev: &Framebuffer,
    cur: &Framebuffer,
    rx0: int,
    ry0: int,
    rx1: int,
    ry1: int,
    px: int,
    py: int,
)
    requires
        g0.wf(),
        prev.wf(),
        cur.wf(),
        prev.same_geometry(g0),
        cur.same_geometry(g0),
        prev@.len() == g0@.len(),
        cur@.len() == g0@.len(),
        rx0 <= px < rx1,
        ry0 <= py < ry1,
        // the write changed at most pixel (px, py)'s bytes
        !prev.in_bounds(px, py) ==> cur@ == prev@,
        prev.in_bounds(px, py) ==> forall|k: int|
            0 <= k < prev@.len() && !(prev.off(px, py) <= k < prev.off(px, py) + prev.bpp)
                ==> cur@[k] == prev@[k],
        forall|k: int|
            0 <= k < g0@.len() && !g0.covers(rx0, ry0, rx1, ry1, k) ==> prev@[k] == g0@[k],
    ensures
        forall|k: int|
            0 <= k < g0@.len() && !g0.covers(rx0, ry0, rx1, ry1, k) ==> cur@[k] == g0@[k],
{
    assert forall|k: int|
        0 <= k < g0@.len() && !g0.covers(rx0, ry0, rx1, ry1, k) implies cur@[k] == g0@[k] by {
        if prev.in_bounds(px, py) {
            assert(!(prev.off(px, py) <= k < prev.off(px, py) + prev.bpp)) by {
                if prev.off(px, py) <= k < prev.off(px, py) + prev.bpp {
                    assert(g0.in_bounds(px, py) && g0.off(px, py) <= k < g0.off(px, py) + g0.bpp);
                    assert(g0.covers(rx0, ry0, rx1, ry1, k));
                }
            }
        }
    }
}

/// Writes framed to a rectangle whose rows start at or below `ytop` stay
/// framed to the full-width band of rows from `ytop` down.
pub proof fn lemma_band_frame_rect(
    g0: &Framebuffer,
    mid: &Framebuffer,
    cur: &Framebuffer,
    x0: int,
    y0: int,
    x1: int,
    y1: int,
    ytop: int,
)
    requires
        g0.wf(),
        mid.same_geometry(g0),
        cur.same_geometry(g0),
        mid@.len() == g0@.len(),
        cur@.len() == g0@.len(),
        ytop <= y0,
        forall|k: int|
            0 <= k < g0@.len() && !g0.covers(0, ytop, g0.width as int, g0.height as int, k)
                ==> mid@[k] == g0@[k],
        forall|k: int|
            0 <= k < mid@.len() && !mid.covers(x0, y0, x1, y1, k) ==> cur@[k] == mid@[k],
    ensures
        forall|k: int|
            0 <= k < g0@.len() && !g0.covers(0, ytop, g0.width as int, g0.height as int, k)
                ==> cur@[k] == g0@[k],
{
    assert forall|k: int|
        0 <= k < g0@.len() && !g0.covers(0, ytop, g0.width as int, g0.height as int, k) implies
    cur@[k] == g0@[k] by {
        assert(!mid.covers(x0, y0, x1, y1, k)) by {
            if mid.covers(x0, y0, x1, y1, k) {
                let (qx, qy) = choose|qx: int, qy: int|
                    x0 <= qx < x1 && y0 <= qy < y1 && mid.in_bounds(qx, qy) && mid.off(qx, qy) <= k
                        < mid.off(qx, qy) + mid.bpp;
                assert(0 <= qx < g0.width && ytop <= qy < g0.height && g0.in_bounds(qx, qy)
                    && g0.off(qx, qy) <= k < g0.off(qx, qy) + g0.bpp);
                assert(g0.covers(0, ytop, g0.width as int, g0.height as int, k));
            }
        }
    }
}

/// Writes framed to a band starting at or below `ytop` stay framed to the
/// band from `ytop` down.
pub proof fn lemma_band_frame_band(
    g0: &Framebuffer,
    mid: &Framebuffer,
    cur: &Framebuffer,
    ysub: int,
    ytop: int,
)
    requires
        g0.wf(),
        mid.same_geometry(g0),
        cur.same_geometry(g0),
        mid@.len() == g0@.len(),
        cur@.len() == g0@.len(),
        ytop <= ysub,
        forall|k: int|
            0 <= k < g0@.len() && !g0.covers(0, ytop, g0.width as int, g0.height as int, k)
                ==> mid@[k] == g0@[k],
        forall|k: int|
            0 <= k < mid@.len() && !mid.covers(0, ysub, mid.width as int, mid.height as int, k)
                ==> cur@[k] == mid@[k],
    ensures
        forall|k: int|
            0 <= k < g0@.len() && !g0.covers(0, ytop, g0.width as int, g0.height as int, k)
                ==> cur@[k] == g0@[k],
{
    lemma_band_frame_rect(g0, mid, cur, 0, ysub, g0.width as int, g0.height as int, ytop);
}

/// At 24 or 32 bits per pixel the stored bytes decode back to exactly
/// the colour that was written.
pub proof fn lemma_decode_encode(fb: &Framebuffer, x: int, y: int, c: Color)
    requires
        fb.wf(),
        fb.bpp == 3 || fb.bpp == 4,
        fb.in_bounds(x, y),
        fb.pixel_is(x, y, c),
    ensures
        fb.spec_get_pixel(x, y) == Some(c),
{
    let o = fb.off(x, y);
    assert(fb@[o] == spec_pixel_bytes(c, fb.bpp)[0]);
    assert(fb@[o + 1] == spec_pixel_bytes(c, fb.bpp)[1]);
    assert(fb@[o + 2] == spec_pixel_bytes(c, fb.bpp)[2]);
    assert(fb@[o] == c.b && fb@[o + 1] == c.g && fb@[o + 2] == c.r);
}

/// One pixel write of a block restore keeps the block invariants: the
/// pixels already written keep their saved colours, the new pixel takes
/// its own, and nothing outside the 16x16 block moves.
pub proof fn lemma_save_restore_step(
    g0: &Framebuffer,
    prev: &Framebuffer,
    cur: &Framebuffer,
    x: int,
    y: int,
    cx: int,
    cy: int,
    save: Seq<Color>,
)
    requires
        g0.wf(),
        prev.wf(),
        cur.wf(),
        prev.same_geometry(g0),
        cur.same_geometry(g0),
        prev@.len() == g0@.len(),
        cur@.len() == g0@.len(),
        0 <= cx < 16,
        0 <= cy < 16,
        save.len() == 256,
        // the step wrote pixel (x+cx, y+cy) with its saved colour
        !prev.in_bounds(x + cx, y + cy) ==> cur@ == prev@,
        prev.in_bounds(x + cx, y + cy) ==> cur.pixel_is(x + cx, y + cy, save[cy * 16 + cx]),
        prev.in_bounds(x + cx, y + cy) ==> forall|k: int|
            0 <= k < prev@.len() && !(prev.off(x + cx, y + cy) <= k < prev.off(x + cx, y + cy)
                + prev.bpp) ==> cur@[k] == prev@[k],
        // what held before the step
        forall|qy: int, qx: int|
            0 <= qy < cy && 0 <= qx < 16 && g0.in_bounds(x + qx, y + qy) ==> prev.pixel_is(
                x + qx,
                y + qy,
                #[trigger] save[qy * 16 + qx],
            ),
        forall|qx: int|
            0 <= qx < cx && g0.in_bounds(x + qx, y + cy) ==> prev.pixel_is(
                x + qx,
                y + cy,
                #[trigger] save[cy * 16 + qx],
            ),
        forall|k: int|
            0 <= k < g0@.len() && !g0.covers(x, y, x + 16, y + 16, k) ==> prev@[k] == g0@[k],
    ensures
        forall|qy: int, qx: int|
            0 <= qy < cy && 0 <= qx < 16 && g0.in_bounds(x + qx, y + qy) ==> cur.pixel_is(
                x + qx,
                y + qy,
                #[trigger] save[qy * 16 + qx],
            ),
        forall|qx: int|
            0 <= qx < cx + 1 && g0.in_bounds(x + qx, y + cy) ==> cur.pixel_is(
                x + qx,
                y + cy,
                #[trigger] save[cy * 16 + qx],
            ),
        forall|k: int|
            0 <= k < g0@.len() && !g0.covers(x, y, x + 16, y + 16, k) ==> cur@[k] == g0@[k],
{
    lemma_write_in_region(g0, prev, cur, x, y, x + 16, y + 16, x + cx, y + cy);
    if prev.in_bounds(x + cx, y + cy) {
        assert forall|qy: int, qx: int|
            0 <= qy < cy && 0 <= qx < 16 && g0.in_bounds(x + qx, y + qy) implies cur.pixel_is(
            x + qx,
            y + qy,
            #[trigger] save[qy * 16 + qx],
        ) by {
            lemma_pixels_disjoint(g0, x + qx, y + qy, x + cx, y + cy);
            assert(prev.pixel_is(x + qx, y + qy, save[qy * 16 + qx]));
            assert forall|j: int|
                0 <= j < cur.bpp implies #[trigger] cur@[cur.off(x + qx, y + qy) + j]
                == spec_pixel_bytes(save[qy * 16 + qx], cur.bpp)[j] by {
                lemma_offset_in_range(x + qx, y + qy, g0.width as int, g0.height as int,
                    g0.bpp as int, g0.pitch as int);
                assert(prev@[prev.off(x + qx, y + qy) + j] == spec_pixel_bytes(
                    save[qy * 16 + qx],
                    prev.bpp,
                )[j]);
            }
        }
        assert forall|qx: int|
            0 <= qx < cx + 1 && g0.in_bounds(x + qx, y + cy) implies cur.pixel_is(
            x + qx,
            y + cy,
            #[trigger] save[cy * 16 + qx],
        ) by {
            if qx < cx {
                lemma_pixels_disjoint(g0, x + qx, y + cy, x + cx, y + cy);
                assert(prev.pixel_is(x + qx, y + cy, save[cy * 16 + qx]));
                assert forall|j: int|
                    0 <= j < cur.bpp implies #[trigger] cur@[cur.off(x + qx, y + cy) + j]
                    == spec_pixel_bytes(save[cy * 16 + qx], cur.bpp)[j] by {
                    lemma_offset_in_range(x + qx, y + cy, g0.width as int, g0.height as int,
                        g0.bpp as int, g0.pitch as int);
                    assert(prev@[prev.off(x + qx, y + cy) + j] == spec_pixel_bytes(
                        save[cy * 16 + qx],
                        prev.bpp,
                    )[j]);
                }
            }
        }
    } else {
        assert(cur@ == prev@);
        assert forall|qy: int, qx: int|
            0 <= qy < cy && 0 <= qx < 16 && g0.in_bounds(x + qx, y + qy) implies cur.pixel_is(
            x + qx,
            y + qy,
            #[trigger] save[qy * 16 + qx],
        ) by {
            assert(prev.pixel_is(x + qx, y + qy, save[qy * 16 + qx]));
        }
        assert forall|qx: int|
            0 <= qx < cx + 1 && g0.in_bounds(x + qx, y + cy) implies cur.pixel_is(
            x + qx,
            y + cy,
            #[trigger] save[cy * 16 + qx],
        ) by {
            if qx < cx {
                assert(prev.pixel_is(x + qx, y + cy, save[cy * 16 + qx]));
            }
        }
    }
}

/// A painted pixel outside a written rectangle keeps its colour through
/// the write.
pub proof fn lemma_pixel_preserved(
    g0: &Framebuffer,
    prev: &Framebuffer,
    cur: &Framebuffer,
    rx0: int,
    ry0: int,
    rx1: int,
    ry1: int,
    px: int,
    py: int,
    c: Color,
)
    requires
        g0.wf(),
        prev.wf(),
        cur.wf(),
        prev.same_geometry(g0),
        cur.same_geometry(g0),
        prev@.len() == g0@.len(),
        cur@.len() == g0@.len(),
        g0.in_bounds(px, py),
        prev.pixel_is(px, py, c),
        !(rx0 <= px < rx1 && ry0 <= py < ry1),
        forall|k: int|
            0 <= k < prev@.len() && !prev.covers(rx0, ry0, rx1, ry1, k) ==> cur@[k] == prev@[k],
    ensures
        cur.pixel_is(px, py, c),
{
    assert forall|j: int|
        0 <= j < cur.bpp implies cur@[cur.off(px, py) + j] == spec_pixel_bytes(c, cur.bpp)[j] by {
        lemma_offset_in_range(px, py, g0.width as int, g0.height as int, g0.bpp as int,
            g0.pitch as int);
        let k = prev.off(px, py) + j;
        assert(!prev.covers(rx0, ry0, rx1, ry1, k)) by {
            if prev.covers(rx0, ry0, rx1, ry1, k) {
                let (qx, qy) = choose|qx: int, qy: int|
                    rx0 <= qx < rx1 && ry0 <= qy < ry1 && prev.in_bounds(qx, qy) && prev.off(
                        qx,
                        qy,
                    ) <= k < prev.off(qx, qy) + prev.bpp;
                if (qx, qy) != (px, py) {
                    lemma_pixels_disjoint(prev, qx, qy, px, py);
                }
            }
        }
        assert(prev@[k] == spec_pixel_bytes(c, prev.bpp)[j]);
    }
}

/// A pixel fully inside the screen has all its bytes inside the buffer.
pub proof fn lemma_offset_in_range(x: int, y: int, w: int, h: int, bpp: int, pitch: int)
    requires
        0 <= x < w,
        0 <= y < h,
        0 < bpp,
        w * bpp <= pitch,
    ensures
        y * pitch + x * bpp + bpp <= pitch * h,
        0 <= y * pitch + x * bpp,
{
    assert(y * pitch + x * bpp + bpp <= pitch * h) by (nonlinear_arith)
        requires
            0 <= x < w,
            0 <= y < h,
            0 < bpp,
            w * bpp <= pitch,
    ;
    assert(0 <= y * pitch + x * bpp) by (nonlinear_arith)
        requires
            0 <= x,
            0 <= y,
            0 < bpp,
            0 <= pitch,
    ;
}

/// A pixel keeps its colour across a write to a different pixel.
pub proof fn lemma_pixel_kept_after_write(
    g0: &Framebuffer,
    prev: &Framebuffer,
    cur: &Framebuffer,
    wx: int,
    wy: int,
    px: int,
    py: int,
    c: Color,
)
    requires
        g0.wf(),
        prev.wf(),
        cur.wf(),
        prev.same_geometry(g0),
        cur.same_geometry(g0),
        prev@.len() == g0@.len(),
        cur@.len() == g0@.len(),
        g0.in_bounds(px, py),
        prev.pixel_is(px, py, c),
        (px, py) != (wx, wy),
        !prev.in_bounds(wx, wy) ==> cur@ == prev@,
        prev.in_bounds(wx, wy) ==> forall|k: int|
            0 <= k < prev@.len() && !(prev.off(wx, wy) <= k < prev.off(wx, wy) + prev.bpp)
                ==> cur@[k] == prev@[k],
    ensures
        cur.pixel_is(px, py, c),
{
    assert forall|j: int|
        0 <= j < cur.bpp implies cur@[cur.off(px, py) + j] == spec_pixel_bytes(c, cur.bpp)[j] by {
        lemma_offset_in_range(px, py, g0.width as int, g0.height as int, g0.bpp as int,
            g0.pitch as int);
        let k = prev.off(px, py) + j;
        if prev.in_bounds(wx, wy) {
            lemma_pixels_disjoint(prev, px, py, wx, wy);
            assert(!(prev.off(wx, wy) <= k < prev.off(wx, wy) + prev.bpp));
        }
        assert(prev@[k] == spec_pixel_bytes(c, prev.bpp)[j]);
    }
}

/// Byte ranges of distinct in-bounds pixels are disjoint.
pub proof fn lemma_pixels_disjoint(fb: &Framebuffer, ax: int, ay: int, bx: int, by_: int)
    requires
        fb.wf(),
        fb.in_bounds(ax, ay),
        fb.in_bounds(bx, by_),
        (ax, ay) != (bx, by_),
    ensures
        fb.off(ax, ay) + fb.bpp <= fb.off(bx, by_) || fb.off(bx, by_) + fb.bpp <= fb.off(ax, ay),
{
    let bpp = fb.bpp as int;
    let pitch = fb.pitch as int;
    let w = fb.width as int;
    if ay == by_ {
        if ax < bx {
            assert(ax * bpp + bpp <= bx * bpp) by (nonlinear_arith)
                requires
                    ax < bx,
                    0 < bpp,
            ;
        } else {
            assert(bx * bpp + bpp <= ax * bpp) by (nonlinear_arith)
                requires
                    bx < ax,
                    0 < bpp,
            ;
        }
    } else if ay < by_ {
        assert(ay * pitch + ax * bpp + bpp <= by_ * pitch + bx * bpp) by (nonlinear_arith)
            requires
                ay < by_,
                0 <= ax < w,
                0 <= bx,
                0 < bpp,
                w * bpp <= pitch,
    ;
    } else {
        assert(by_ * pitch + bx * bpp + bpp <= ay * pitch + ax * bpp) by (nonlinear_arith)
            requires
                by_ < ay,
                0 <= bx < w,
                0 <= ax,
                0 < bpp,
                w * bpp <= pitch,
    ;
    }
}

/// One `set_pixel` step of a row fill keeps the fill invariants.
proof fn lemma_fill_step(
    orig: &Framebuffer,
    prev: &Framebuffer,
    cur: &Framebuffer,
    x0: int,
    y0: int,
    x1: int,
    py: int,
    px: int,
    color: Color,
)
    requires
        orig.wf(),
        prev.wf(),
        cur.wf(),
        prev.same_geometry(orig),
        cur.same_geometry(orig),
        prev@.len() == orig@.len(),
        cur@.len() == orig@.len(),
        0 <= x0 <= px < x1 <= orig.width,
        0 <= y0 <= py < orig.height,
        // the step wrote pixel (px, py) and nothing else
        cur.pixel_is(px, py, color),
        forall|k: int|
            0 <= k < prev@.len() && !(prev.off(px, py) <= k < prev.off(px, py) + prev.bpp)
                ==> cur@[k] == prev@[k],
        // what held before the step
        forall|qx: int, qy: int|
            x0 <= qx < x1 && y0 <= qy < py ==> prev.pixel_is(qx, qy, color),
        forall|qx: int| x0 <= qx < px ==> prev.pixel_is(qx, py, color),
        forall|k: int|
            0 <= k < orig@.len() && !orig.covers(x0, y0, x1, py, k) && !orig.covers(
                x0,
                py,
                px,
                py + 1,
                k,
            ) ==> prev@[k] == orig@[k],
    ensures
        forall|qx: int, qy: int| x0 <= qx < x1 && y0 <= qy < py ==> cur.pixel_is(qx, qy, color),
        forall|qx: int| x0 <= qx < px + 1 ==> cur.pixel_is(qx, py, color),
        forall|k: int|
            0 <= k < orig@.len() && !orig.covers(x0, y0, x1, py, k) && !orig.covers(
                x0,
                py,
                px + 1,
                py + 1,
                k,
            ) ==> cur@[k] == orig@[k],
{
    assert forall|qx: int, qy: int|
        x0 <= qx < x1 && y0 <= qy < py implies cur.pixel_is(qx, qy, color) by {
        lemma_pixels_disjoint(orig, qx, qy, px, py);
        assert(prev.pixel_is(qx, qy, color));
        assert forall|j: int|
            0 <= j < cur.bpp implies cur@[cur.off(qx, qy) + j] == spec_pixel_bytes(
            color,
            cur.bpp,
        )[j] by {
            lemma_offset_in_range(
                qx,
                qy,
                orig.width as int,
                orig.height as int,
                orig.bpp as int,
                orig.pitch as int,
            );
            assert(prev@[prev.off(qx, qy) + j] == spec_pixel_bytes(color, prev.bpp)[j]);
        }
    }
    assert forall|qx: int| x0 <= qx < px + 1 implies cur.pixel_is(qx, py, color) by {
        if qx < px {
            lemma_pixels_disjoint(orig, qx, py, px, py);
            assert(prev.pixel_is(qx, py, color));
            assert forall|j: int|
                0 <= j < cur.bpp implies cur@[cur.off(qx, py) + j] == spec_pixel_bytes(
                color,
                cur.bpp,
            )[j] by {
                lemma_offset_in_range(
                    qx,
                    py,
                    orig.width as int,
                    orig.height as int,
                    orig.bpp as int,
                    orig.pitch as int,
                );
                assert(prev@[prev.off(qx, py) + j] == spec_pixel_bytes(color, prev.bpp)[j]);
            }
        }
    }
    assert forall|k: int|
        0 <= k < orig@.len() && !orig.covers(x0, y0, x1, py, k) && !orig.covers(
        x0,
        py,
        px + 1,
        py + 1,
        k,
    ) implies cur@[k] == orig@[k] by {
        assert(!(orig.off(px, py) <= k < orig.off(px, py) + orig.bpp)) by {
            if orig.off(px, py) <= k < orig.off(px, py) + orig.bpp {
                assert(orig.in_bounds(px, py));
                assert(x0 <= px < px + 1 && py <= py < py + 1 && orig.in_bounds(px, py)
                    && orig.off(px, py) <= k < orig.off(px, py) + orig.bpp);
                assert(orig.covers(x0, py, px + 1, py + 1, k));
            }
        }
        assert(!orig.covers(x0, py, px, py + 1, k)) by {
            if orig.covers(x0, py, px, py + 1, k) {
                let (qx, qy) = choose|qx: int, qy: int|
                    x0 <= qx < px && py <= qy < py + 1 && orig.in_bounds(qx, qy) && orig.off(
                        qx,
                        qy,
                    ) <= k < orig.off(qx, qy) + orig.bpp;
                assert(x0 <= qx < px + 1 && py <= qy < py + 1 && orig.in_bounds(qx, qy)
                    && orig.off(qx, qy) <= k < orig.off(qx, qy) + orig.bpp);
                assert(orig.covers(x0, py, px + 1, py + 1, k));
            }
        }
    }
}

} // verus!
