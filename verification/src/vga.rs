//! VGA text writer: an 80x25 cell grid of character and attribute bytes,
//! with cursor advance, tab stops and scrolling.
//!
//! The writer renders into an owned cell buffer; the caller that owns the
//! text-mode memory at its fixed physical address copies the cells out.

use vstd::prelude::*;
use vstd::string::StrSliceExecFns;

verus! {

/// Text columns
pub const TEXT_WIDTH: usize = 80;

/// Text rows
pub const TEXT_HEIGHT: usize = 25;

/// VGA text mode colors
#[derive(Clone, Copy, Debug, PartialEq, Eq, Structural)]
pub enum TextColor {
    Black,
    Blue,
    Green,
    Cyan,
    Red,
    Magenta,
    Brown,
    LightGray,
    DarkGray,
    LightBlue,
    LightGreen,
    LightCyan,
    LightRed,
    Pink,
    Yellow,
    White,
}

impl TextColor {
    /// The 4-bit palette code.
    pub open spec fn spec_code(&self) -> u8 {
        match self {
            TextColor::Black => 0,
            TextColor::Blue => 1,
            TextColor::Green => 2,
            TextColor::Cyan => 3,
            TextColor::Red => 4,
            TextColor::Magenta => 5,
            TextColor::Brown => 6,
            TextColor::LightGray => 7,
            TextColor::DarkGray => 8,
            TextColor::LightBlue => 9,
            TextColor::LightGreen => 10,
            TextColor::LightCyan => 11,
            TextColor::LightRed => 12,
            TextColor::Pink => 13,
            TextColor::Yellow => 14,
            TextColor::White => 15,
        }
    }

    /// The 4-bit palette code.
    pub fn code(&self) -> (r: u8)
        ensures
            r == self.spec_code(),
            r < 16,
    {
        match self {
            TextColor::Black => 0,
            TextColor::Blue => 1,
            TextColor::Green => 2,
            TextColor::Cyan => 3,
            TextColor::Red => 4,
            TextColor::Magenta => 5,
            TextColor::Brown => 6,
            TextColor::LightGray => 7,
            TextColor::DarkGray => 8,
            TextColor::LightBlue => 9,
            TextColor::LightGreen => 10,
            TextColor::LightCyan => 11,
            TextColor::LightRed => 12,
            TextColor::Pink => 13,
            TextColor::Yellow => 14,
            TextColor::White => 15,
        }
    }
}

/// VGA text attribute: background in the high nibble, foreground in the
/// low one.
#[derive(Clone, Copy, Debug, PartialEq, Eq, Structural)]
pub struct ColorCode {
    pub attr: u8,
}

impl ColorCode {
    pub fn new(foreground: TextColor, background: TextColor) -> (r: ColorCode)
        ensures
            r.attr == ((background.spec_code() << 4) | foreground.spec_code()),
    {
        let fg = foreground.code();
        let bg = background.code();
        proof {
            assert(bg < 16 ==> (bg << 4) < 256) by (bit_vector)
                requires
                    bg < 16,
            ;
        }
        ColorCode { attr: (bg << 4) | fg }
    }
}

/// One text cell: a character byte and its attribute.
#[derive(Clone, Copy, Debug, PartialEq, Eq, Structural)]
pub struct TextCell {
    pub glyph: u8,
    pub attr: u8,
}

/// Text writer over an owned 80x25 cell grid.
pub struct Writer {
    /// The cells, row-major
    pub cells: Vec<TextCell>,
    /// Cursor column
    pub column: usize,
    /// Cursor row
    pub row: usize,
    /// Current attribute
    pub color: ColorCode,
}

impl Writer {
    /// A blank cell under the current attribute.
    pub open spec fn blank(&self) -> TextCell {
        TextCell { glyph: 0x20, attr: self.color.attr }
    }

    pub open spec fn wf(&self) -> bool {
        &&& self.cells.len() == TEXT_WIDTH * TEXT_HEIGHT
        &&& self.column <= TEXT_WIDTH
        &&& self.row < TEXT_HEIGHT
    }

    /// A cleared text-mode writer in light gray on black.
    pub fn text_mode() -> (r: Writer)
        ensures
            r.wf(),
            r.column == 0 && r.row == 0,
            forall|i: int| 0 <= i < 2000 ==> r.cells@[i] == r.blank(),
    {
        let color = ColorCode::new(TextColor::LightGray, TextColor::Black);
        let mut cells: Vec<TextCell> = Vec::new();
        let mut i: usize = 0;
        while i < TEXT_WIDTH * TEXT_HEIGHT
            invariant
                i <= 2000,
                cells@.len() == i,
                forall|j: int|
                    0 <= j < i ==> cells@[j] == (TextCell { glyph: 0x20, attr: color.attr }),
            decreases 2000 - i,
        {
            cells.push(TextCell { glyph: 0x20, attr: color.attr });
            i += 1;
        }
        Writer { cells, column: 0, row: 0, color }
    }

    /// Clear the screen and home the cursor.
    pub fn clear(&mut self)
        requires
            old(self).wf(),
        ensures
            final(self).wf(),
            final(self).column == 0 && final(self).row == 0,
            final(self).color == old(self).color,
            forall|i: int| 0 <= i < 2000 ==> final(self).cells@[i] == final(self).blank(),
    {
        let blank = TextCell { glyph: 0x20, attr: self.color.attr };
        let mut i: usize = 0;
        while i < TEXT_WIDTH * TEXT_HEIGHT
            invariant
                i <= 2000,
                self.cells.len() == 2000,
                self.color == old(self).color,
                blank == (TextCell { glyph: 0x20, attr: self.color.attr }),
                forall|j: int| 0 <= j < i ==> self.cells@[j] == blank,
            decreases 2000 - i,
        {
            self.cells.set(i, blank);
            i += 1;
        }
        self.column = 0;
        self.row = 0;
    }

    /// Set the text color.
    pub fn set_color(&mut self, foreground: TextColor, background: TextColor)
        requires
            old(self).wf(),
        ensures
            final(self).wf(),
            final(self).color.attr == ((background.spec_code() << 4) | foreground.spec_code()),
            final(self).cells@ == old(self).cells@,
            final(self).column == old(self).column,
            final(self).row == old(self).row,
    {
        self.color = ColorCode::new(foreground, background);
    }

    /// Scroll the grid up one row: every row takes the one below it and
    /// the last row clears.  The cursor moves to the last row.
    pub fn scroll(&mut self)
        requires
            old(self).wf(),
        ensures
            final(self).wf(),
            final(self).color == old(self).color,
            final(self).column == old(self).column,
            final(self).row == TEXT_HEIGHT - 1,
            forall|i: int|
                0 <= i < 2000 - 80 ==> final(self).cells@[i] == old(self).cells@[i + 80],
            forall|i: int|
                2000 - 80 <= i < 2000 ==> final(self).cells@[i] == final(self).blank(),
    {
        let mut i: usize = 0;
        while i < TEXT_WIDTH * (TEXT_HEIGHT - 1)
            invariant
                i <= 1920,
                self.cells.len() == 2000,
                self.color == old(self).color,
                self.column == old(self).column,
                self.row == old(self).row,
                forall|j: int| 0 <= j < i ==> self.cells@[j] == old(self).cells@[j + 80],
                forall|j: int| i <= j < 2000 ==> self.cells@[j] == old(self).cells@[j],
            decreases 1920 - i,
        {
            let moved = self.cells[i + 80];
            self.cells.set(i, moved);
            i += 1;
        }
        let blank = TextCell { glyph: 0x20, attr: self.color.attr };
        let mut k: usize = TEXT_WIDTH * (TEXT_HEIGHT - 1);
        while k < TEXT_WIDTH * TEXT_HEIGHT
            invariant
                1920 <= k <= 2000,
                self.cells.len() == 2000,
                self.color == old(self).color,
                self.column == old(self).column,
                self.row == old(self).row,
                blank == (TextCell { glyph: 0x20, attr: self.color.attr }),
                forall|j: int| 0 <= j < 1920 ==> self.cells@[j] == old(self).cells@[j + 80],
                forall|j: int| 1920 <= j < k ==> self.cells@[j] == blank,
            decreases 2000 - k,
        {
            self.cells.set(k, blank);
            k += 1;
        }
        self.row = TEXT_HEIGHT - 1;
    }

    /// Move to the next line, scrolling at the bottom.
    pub fn new_line(&mut self)
        requires
            old(self).wf(),
        ensures
            final(self).wf(),
            final(self).column == 0,
            final(self).color == old(self).color,
            old(self).row + 1 < TEXT_HEIGHT ==> final(self).row == old(self).row + 1
                && final(self).cells@ == old(self).cells@,
            old(self).row + 1 == TEXT_HEIGHT ==> final(self).row == TEXT_HEIGHT - 1,
    {
        self.column = 0;
        if self.row + 1 < TEXT_HEIGHT {
            self.row = self.row + 1;
        } else {
            self.scroll();
        }
    }

    /// Write one byte: newline, carriage return and tab move the cursor;
    /// anything else lands in the current cell under the current
    /// attribute and advances it, wrapping and scrolling as needed.
    pub fn write_byte(&mut self, byte: u8)
        requires
            old(self).wf(),
        ensures
            final(self).wf(),
            final(self).color == old(self).color,
            byte == 0x0A ==> final(self).column == 0,
            byte == 0x0D ==> final(self).column == 0 && final(self).row == old(self).row
                && final(self).cells@ == old(self).cells@,
    {
        if byte == 0x0A {
            self.new_line();
        } else if byte == 0x0D {
            self.column = 0;
        } else if byte == 0x09 {
            // tab to the next 8-column stop
            let spaces = 8 - (self.column % 8);
            let mut n: usize = 0;
            while n < spaces
                invariant
                    self.wf(),
                    spaces <= 8,
                    self.color == old(self).color,
                decreases spaces - n,
            {
                self.put_char(0x20);
                n += 1;
            }
        } else {
            self.put_char(byte);
        }
    }

    /// Place one printable byte at the cursor and advance.
    fn put_char(&mut self, byte: u8)
        requires
            old(self).wf(),
        ensures
            final(self).wf(),
            final(self).color == old(self).color,
    {
        if self.column >= TEXT_WIDTH {
            self.new_line();
        }
        proof {
            assert(self.row * 80 + self.column < 2000) by (nonlinear_arith)
                requires
                    self.row < 25,
                    self.column < 80,
            ;
        }
        let offset = self.row * TEXT_WIDTH + self.column;
        self.cells.set(offset, TextCell { glyph: byte, attr: self.color.attr });
        self.column = self.column + 1;
    }

    /// Write a string, mapping non-printable bytes to a placeholder
    /// glyph.
    pub fn write_string(&mut self, s: &str)
        requires
            old(self).wf(),
            s@.len() <= 100000,
        ensures
            final(self).wf(),
            final(self).color == old(self).color,
    {
        let n = s.unicode_len();
        let mut i: usize = 0;
        while i < n
            invariant
                self.wf(),
                i <= n,
                n == s@.len(),
                self.color == old(self).color,
            decreases n - i,
        {
            let c = s.get_char(i);
            let code = c as u32;
            if (code >= 0x20 && code <= 0x7E) || code == 0x0A || code == 0x0D || code == 0x09 {
                self.write_byte(code as u8);
            } else {
                self.write_byte(0xFE);
            }
            i += 1;
        }
    }
}

} // verus!
