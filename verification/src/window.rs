//! Windows: identity, bounded title, outer bounds, flags, and the derived
//! content rectangle, with rio-style minimal chrome drawing.

use vstd::prelude::*;
use vstd::string::StrSliceExecFns;
use crate::framebuffer::Framebuffer;
use crate::gui::{Color, Rect};
use crate::theme::Theme;

verus! {

/// Window title bar height
pub const TITLE_HEIGHT: u32 = 20;

/// Window border width
pub const BORDER_WIDTH: u32 = 3;

/// Bound on window coordinates, so that layout arithmetic stays in range
pub const COORD_LIMIT: i32 = 1000000;

/// Window flags
#[derive(Clone, Copy, Debug, PartialEq, Eq, Structural)]
pub struct WindowFlags {
    pub visible: bool,
    pub focused: bool,
    pub movable: bool,
    pub resizable: bool,
    pub has_title: bool,
}

impl Default for WindowFlags {
    /// Visible, unfocused, movable, resizable, titled.
    fn default() -> (r: WindowFlags)
        ensures
            r == (WindowFlags {
                visible: true,
                focused: false,
                movable: true,
                resizable: true,
                has_title: true,
            }),
    {
        WindowFlags { visible: true, focused: false, movable: true, resizable: true, has_title: true }
    }
}

/// A window in the GUI.
pub struct Window {
    /// Unique window ID
    pub id: u32,
    /// Window title, at most 63 characters
    pub title: String,
    /// Position and size (outer bounds including decoration)
    pub bounds: Rect,
    /// Window flags
    pub flags: WindowFlags,
    /// Content dimensions
    pub content_width: u32,
    pub content_height: u32,
    /// Dirty flag (needs redraw)
    pub dirty: bool,
}

/// A title clipped to the inline capacity of 63 characters.
pub open spec fn trunc_title(s: Seq<char>) -> Seq<char> {
    if s.len() <= 63 {
        s
    } else {
        s.take(63)
    }
}

impl Window {
    /// Coordinates and sizes in range for layout arithmetic, and the
    /// content rectangle derived from the bounds.
    pub open spec fn wf(&self) -> bool {
        &&& -COORD_LIMIT <= self.bounds.x <= COORD_LIMIT
        &&& -COORD_LIMIT <= self.bounds.y <= COORD_LIMIT
        &&& self.bounds.width <= COORD_LIMIT
        &&& self.bounds.height <= COORD_LIMIT
        &&& self.content_width == (if self.bounds.width >= 2 * BORDER_WIDTH {
            (self.bounds.width - 2 * BORDER_WIDTH) as u32
        } else {
            0u32
        })
        &&& self.content_height == (if self.bounds.height >= TITLE_HEIGHT + BORDER_WIDTH {
            (self.bounds.height - TITLE_HEIGHT - BORDER_WIDTH) as u32
        } else {
            0u32
        })
        &&& self.title@.len() <= 63
    }

    /// Create a new window
    pub fn new(id: u32, title: &str, x: i32, y: i32, width: u32, height: u32) -> (r: Window)
        requires
            -COORD_LIMIT <= x <= COORD_LIMIT,
            -COORD_LIMIT <= y <= COORD_LIMIT,
            width <= COORD_LIMIT,
            height <= COORD_LIMIT,
        ensures
            r.wf(),
            r.id == id,
            r.title@ == trunc_title(title@),
            r.bounds == (Rect { x, y, width, height }),
            r.flags == (WindowFlags {
                visible: true,
                focused: false,
                movable: true,
                resizable: true,
                has_title: true,
            }),
            r.dirty,
    {
        let title_owned: String = if title.unicode_len() <= 63 {
            title.to_owned()
        } else {
            title.substring_char(0, 63).to_owned()
        };
        let content_w = if width >= 2 * BORDER_WIDTH {
            width - 2 * BORDER_WIDTH
        } else {
            0
        };
        let content_h = if height >= TITLE_HEIGHT + BORDER_WIDTH {
            height - TITLE_HEIGHT - BORDER_WIDTH
        } else {
            0
        };
        Window {
            id,
            title: title_owned,
            bounds: Rect { x, y, width, height },
            flags: Default::default(),
            content_width: content_w,
            content_height: content_h,
            dirty: true,
        }
    }

    /// Get the window title.
    pub fn title(&self) -> (r: &str)
        ensures
            r@ == self.title@,
    {
        self.title.as_str()
    }

    /// Get content area rectangle (relative to window)
    pub fn content_rect(&self) -> (r: Rect)
        ensures
            r == (Rect {
                x: BORDER_WIDTH as i32,
                y: TITLE_HEIGHT as i32,
                width: self.content_width,
                height: self.content_height,
            }),
    {
        Rect {
            x: BORDER_WIDTH as i32,
            y: TITLE_HEIGHT as i32,
            width: self.content_width,
            height: self.content_height,
        }
    }

    /// Get absolute content area rectangle
    pub fn content_rect_abs(&self) -> (r: Rect)
        requires
            self.wf(),
        ensures
            r == (Rect {
                x: (self.bounds.x + BORDER_WIDTH) as i32,
                y: (self.bounds.y + TITLE_HEIGHT) as i32,
                width: self.content_width,
                height: self.content_height,
            }),
    {
        Rect {
            x: self.bounds.x + BORDER_WIDTH as i32,
            y: self.bounds.y + TITLE_HEIGHT as i32,
            width: self.content_width,
            height: self.content_height,
        }
    }

    /// Get title bar rectangle
    pub fn title_rect(&self) -> (r: Rect)
        ensures
            r == (Rect {
                x: self.bounds.x,
                y: self.bounds.y,
                width: self.bounds.width,
                height: TITLE_HEIGHT,
            }),
    {
        Rect { x: self.bounds.x, y: self.bounds.y, width: self.bounds.width, height: TITLE_HEIGHT }
    }

    /// Whether the point lies in the title bar.
    pub open spec fn spec_in_title_bar(&self, x: int, y: int) -> bool {
        &&& self.bounds.x <= x < self.bounds.x + self.bounds.width
        &&& self.bounds.y <= y < self.bounds.y + TITLE_HEIGHT
    }

    /// Check if point is in title bar
    pub fn in_title_bar(&self, x: i32, y: i32) -> (r: bool)
        requires
            self.wf(),
        ensures
            r == self.spec_in_title_bar(x as int, y as int),
    {
        self.title_rect().contains(x, y)
    }

    /// Whether the point lies in the window's outer bounds.
    pub open spec fn spec_contains(&self, x: int, y: int) -> bool {
        self.bounds.spec_contains(x, y)
    }

    /// Check if point is in window bounds
    pub fn contains(&self, x: i32, y: i32) -> (r: bool)
        requires
            self.wf(),
        ensures
            r == self.spec_contains(x as int, y as int),
    {
        self.bounds.contains(x, y)
    }

    /// Move window to new position
    pub fn move_to(&mut self, x: i32, y: i32)
        requires
            old(self).wf(),
            -COORD_LIMIT <= x <= COORD_LIMIT,
            -COORD_LIMIT <= y <= COORD_LIMIT,
        ensures
            final(self).wf(),
            final(self).bounds == (Rect {
                x,
                y,
                width: old(self).bounds.width,
                height: old(self).bounds.height,
            }),
            final(self).dirty,
            final(self).id == old(self).id,
            final(self).title@ == old(self).title@,
            final(self).flags == old(self).flags,
            final(self).content_width == old(self).content_width,
            final(self).content_height == old(self).content_height,
    {
        self.bounds.x = x;
        self.bounds.y = y;
        self.dirty = true;
    }

    /// Resize the window, holding the minimum size, and re-derive the
    /// content rectangle.
    pub fn resize(&mut self, width: u32, height: u32)
        requires
            old(self).wf(),
            width <= COORD_LIMIT,
            height <= COORD_LIMIT,
        ensures
            final(self).wf(),
            final(self).bounds.width == (if width >= 100 {
                width
            } else {
                100u32
            }),
            final(self).bounds.height == (if height >= TITLE_HEIGHT + BORDER_WIDTH + 20 {
                height
            } else {
                (TITLE_HEIGHT + BORDER_WIDTH + 20) as u32
            }),
            final(self).bounds.x == old(self).bounds.x,
            final(self).bounds.y == old(self).bounds.y,
            final(self).dirty,
            final(self).id == old(self).id,
            final(self).title@ == old(self).title@,
            final(self).flags == old(self).flags,
    {
        self.bounds.width = if width >= 100 {
            width
        } else {
            100
        };
        self.bounds.height = if height >= TITLE_HEIGHT + BORDER_WIDTH + 20 {
            height
        } else {
            TITLE_HEIGHT + BORDER_WIDTH + 20
        };
        self.content_width = if self.bounds.width >= 2 * BORDER_WIDTH {
            self.bounds.width - 2 * BORDER_WIDTH
        } else {
            0
        };
        self.content_height = if self.bounds.height >= TITLE_HEIGHT + BORDER_WIDTH {
            self.bounds.height - TITLE_HEIGHT - BORDER_WIDTH
        } else {
            0
        };
        self.dirty = true;
    }

    /// Draw the window chrome: border, title bar, title text and content
    /// background.  Only bytes in the band of rows from the window's top
    /// edge down change.
    pub fn draw(&self, fb: &mut Framebuffer, theme: &Theme)
        requires
            old(fb).wf(),
            self.wf(),
            self.bounds.width >= 2,
            self.bounds.height >= 1,
        ensures
            final(fb).wf(),
            final(fb).same_geometry(old(fb)),
            final(fb)@.len() == old(fb)@.len(),
            forall|k: int|
                0 <= k < old(fb)@.len() && !old(fb).covers(
                    0,
                    self.bounds.y as int,
                    old(fb).width as int,
                    old(fb).height as int,
                    k,
                ) ==> final(fb)@[k] == old(fb)@[k],
            // the top border row holds the border colour
            forall|px: int|
                self.bounds.x <= px < self.bounds.x + self.bounds.width && old(fb).in_bounds(
                    px,
                    self.bounds.y as int,
                ) ==> final(fb).pixel_is(px, self.bounds.y as int, theme.border),
            // the top of the title bar holds the focus-dependent colour
            forall|px: int, py: int|
                self.bounds.x + 1 <= px < self.bounds.x + self.bounds.width - 1 && self.bounds.y
                    + 1 <= py < self.bounds.y + 3 && old(fb).in_bounds(px, py)
                    ==> final(fb).pixel_is(
                    px,
                    py,
                    if self.flags.focused {
                        theme.title_active
                    } else {
                        theme.title_inactive
                    },
                ),
            // the content area holds the window background
            forall|px: int, py: int|
                self.bounds.x + BORDER_WIDTH <= px < self.bounds.x + BORDER_WIDTH
                    + self.content_width && self.bounds.y + TITLE_HEIGHT <= py < self.bounds.y
                    + TITLE_HEIGHT + self.content_height && old(fb).in_bounds(px, py)
                    ==> final(fb).pixel_is(px, py, theme.window_bg),
    {
        let ghost g0 = *old(fb);
        let ghost rx0 = self.bounds.x as int;
        let ghost ry0 = self.bounds.y as int;
        let ghost rw = self.bounds.width as int;

        // Window border
        let ghost gpre = *fb;
        fb.fill_rect(self.bounds.x, self.bounds.y, self.bounds.width, self.bounds.height,
            theme.border);
        proof {
            crate::framebuffer::lemma_band_frame_rect(&g0, &gpre, fb, rx0, ry0, rx0
                + self.bounds.width, ry0 + self.bounds.height, ry0);
        }

        // Title bar
        let title_color = if self.flags.focused {
            theme.title_active
        } else {
            theme.title_inactive
        };
        let ghost g1 = *fb;
        fb.fill_rect(self.bounds.x + 1, self.bounds.y + 1, self.bounds.width - 2, TITLE_HEIGHT - 1,
            title_color);
        proof {
            crate::framebuffer::lemma_band_frame_rect(&g0, &g1, fb, rx0 + 1, ry0 + 1, rx0 + 1
                + (self.bounds.width - 2), ry0 + 1 + (TITLE_HEIGHT - 1), ry0);
            // the top border row is below the title-bar rectangle's rows
            assert forall|px: int|
                rx0 <= px < rx0 + rw && g0.in_bounds(px, ry0) implies fb.pixel_is(
                px,
                ry0,
                theme.border,
            ) by {
                crate::framebuffer::lemma_pixel_preserved(&g0, &g1, fb, rx0 + 1, ry0 + 1, rx0 + 1
                    + (rw - 2), ry0 + 1 + (TITLE_HEIGHT - 1), px, ry0, theme.border);
            }
        }

        // Title text
        let text_color = if self.flags.focused {
            theme.title_text_active
        } else {
            theme.title_text_inactive
        };
        let ghost g2 = *fb;
        fb.draw_string(self.bounds.x + 6, self.bounds.y + 3, self.title.as_str(), text_color,
            Some(title_color));
        proof {
            crate::framebuffer::lemma_band_frame_band(&g0, &g2, fb, ry0 + 3, ry0);
            // the border row and the title-bar top rows sit above the
            // text band
            assert forall|px: int|
                rx0 <= px < rx0 + rw && g0.in_bounds(px, ry0) implies fb.pixel_is(
                px,
                ry0,
                theme.border,
            ) by {
                crate::framebuffer::lemma_pixel_preserved(&g0, &g2, fb, 0, ry0 + 3,
                    g0.width as int, g0.height as int, px, ry0, theme.border);
            }
            assert forall|px: int, py: int|
                rx0 + 1 <= px < rx0 + rw - 1 && ry0 + 1 <= py < ry0 + 3 && g0.in_bounds(
                px,
                py,
            ) implies fb.pixel_is(px, py, title_color) by {
                assert(g1.in_bounds(px, py));
                assert(g2.pixel_is(px, py, title_color));
                crate::framebuffer::lemma_pixel_preserved(&g0, &g2, fb, 0, ry0 + 3,
                    g0.width as int, g0.height as int, px, py, title_color);
            }
        }

        // Content area
        let ghost g3 = *fb;
        fb.fill_rect(self.bounds.x + BORDER_WIDTH as i32, self.bounds.y + TITLE_HEIGHT as i32,
            self.content_width, self.content_height, theme.window_bg);
        proof {
            let cx0 = rx0 + BORDER_WIDTH;
            let cy0 = ry0 + TITLE_HEIGHT;
            let cx1 = cx0 + self.content_width;
            let cy1 = cy0 + self.content_height;
            crate::framebuffer::lemma_band_frame_rect(&g0, &g3, fb, cx0, cy0, cx1, cy1, ry0);
            // the rows above the content rectangle keep their colours
            assert forall|px: int|
                rx0 <= px < rx0 + rw && g0.in_bounds(px, ry0) implies fb.pixel_is(
                px,
                ry0,
                theme.border,
            ) by {
                crate::framebuffer::lemma_pixel_preserved(&g0, &g3, fb, cx0, cy0, cx1, cy1, px,
                    ry0, theme.border);
            }
            assert forall|px: int, py: int|
                rx0 + 1 <= px < rx0 + rw - 1 && ry0 + 1 <= py < ry0 + 3 && g0.in_bounds(
                px,
                py,
            ) implies fb.pixel_is(px, py, title_color) by {
                assert(g3.pixel_is(px, py, title_color));
                crate::framebuffer::lemma_pixel_preserved(&g0, &g3, fb, cx0, cy0, cx1, cy1, px,
                    py, title_color);
            }
            assert forall|px: int, py: int|
                cx0 <= px < cx1 && cy0 <= py < cy1 && g0.in_bounds(px, py) implies fb.pixel_is(
                px,
                py,
                theme.window_bg,
            ) by {
                assert(g3.in_bounds(px, py));
            }
        }
    }

    /// Draw text in the content area with theme colours.  Only bytes in
    /// the band of rows from the text's top edge down change.
    pub fn draw_text(&self, fb: &mut Framebuffer, x: i32, y: i32, text: &str, color: Color,
        theme: &Theme)
        requires
            old(fb).wf(),
            self.wf(),
            -30000 <= x <= 30000,
            -30000 <= y <= 30000,
        ensures
            final(fb).wf(),
            final(fb).same_geometry(old(fb)),
            final(fb)@.len() == old(fb)@.len(),
            forall|k: int|
                0 <= k < old(fb)@.len() && !old(fb).covers(
                    0,
                    self.bounds.y + TITLE_HEIGHT + y,
                    old(fb).width as int,
                    old(fb).height as int,
                    k,
                ) ==> final(fb)@[k] == old(fb)@[k],
    {
        let abs_x = self.bounds.x + BORDER_WIDTH as i32 + x;
        let abs_y = self.bounds.y + TITLE_HEIGHT as i32 + y;
        fb.draw_string(abs_x, abs_y, text, color, Some(theme.window_bg));
    }

    /// Draw text in the content area with custom colours.  Only bytes in
    /// the band of rows from the text's top edge down change.
    pub fn draw_text_color(&self, fb: &mut Framebuffer, x: i32, y: i32, text: &str, fg: Color,
        bg: Color)
        requires
            old(fb).wf(),
            self.wf(),
            -30000 <= x <= 30000,
            -30000 <= y <= 30000,
        ensures
            final(fb).wf(),
            final(fb).same_geometry(old(fb)),
            final(fb)@.len() == old(fb)@.len(),
            forall|k: int|
                0 <= k < old(fb)@.len() && !old(fb).covers(
                    0,
                    self.bounds.y + TITLE_HEIGHT + y,
                    old(fb).width as int,
                    old(fb).height as int,
                    k,
                ) ==> final(fb)@[k] == old(fb)@[k],
    {
        let abs_x = self.bounds.x + BORDER_WIDTH as i32 + x;
        let abs_y = self.bounds.y + TITLE_HEIGHT as i32 + y;
        fb.draw_string(abs_x, abs_y, text, fg, Some(bg));
    }

    /// Fill the content area with a colour.  Only bytes of the content
    /// rectangle change.
    pub fn fill_content(&self, fb: &mut Framebuffer, color: Color)
        requires
            old(fb).wf(),
            self.wf(),
        ensures
            final(fb).wf(),
            final(fb).same_geometry(old(fb)),
            final(fb)@.len() == old(fb)@.len(),
            forall|k: int|
                0 <= k < old(fb)@.len() && !old(fb).covers(
                    self.bounds.x + BORDER_WIDTH,
                    self.bounds.y + TITLE_HEIGHT,
                    self.bounds.x + BORDER_WIDTH + self.content_width,
                    self.bounds.y + TITLE_HEIGHT + self.content_height,
                    k,
                ) ==> final(fb)@[k] == old(fb)@[k],
    {
        fb.fill_rect(self.bounds.x + BORDER_WIDTH as i32, self.bounds.y + TITLE_HEIGHT as i32,
            self.content_width, self.content_height, color);
    }

    /// Mark window as dirty (needs redraw)
    pub fn mark_dirty(&mut self)
        ensures
            final(self).dirty,
            final(self).id == old(self).id,
            final(self).title@ == old(self).title@,
            final(self).bounds == old(self).bounds,
            final(self).flags == old(self).flags,
            final(self).content_width == old(self).content_width,
            final(self).content_height == old(self).content_height,
    {
        self.dirty = true;
    }

    /// Clear dirty flag
    pub fn clear_dirty(&mut self)
        ensures
            !final(self).dirty,
            final(self).id == old(self).id,
            final(self).title@ == old(self).title@,
            final(self).bounds == old(self).bounds,
            final(self).flags == old(self).flags,
            final(self).content_width == old(self).content_width,
            final(self).content_height == old(self).content_height,
    {
        self.dirty = false;
    }

    /// Check if window is dirty
    pub fn is_dirty(&self) -> (r: bool)
        ensures
            r == self.dirty,
    {
        self.dirty
    }
}

} // verus!
