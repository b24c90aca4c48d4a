//! PS/2 keyboard state machine: scancode decoding, modifier tracking, and
//! the ring of buffered key events the main loop drains.
//!
//! The scancode stream is decoded byte-wise.  `0xE0` latches the extended
//! prefix and produces nothing.  Otherwise bit 7 distinguishes release from
//! press and bits 0-6 index the keycode table; modifier keys update sticky
//! flags, and a press appends `(keycode, ascii, pressed)` to the ring,
//! overwriting the oldest entry when full.

use vstd::prelude::*;

verus! {

/// Key event types
#[derive(Clone, Copy, Debug, PartialEq, Eq, Structural)]
pub enum KeyEvent {
    Press(KeyCode),
    Release(KeyCode),
}

/// Key codes
#[derive(Clone, Copy, Debug, PartialEq, Eq, Structural)]
pub enum KeyCode {
    Escape,
    Key1,
    Key2,
    Key3,
    Key4,
    Key5,
    Key6,
    Key7,
    Key8,
    Key9,
    Key0,
    Minus,
    Equals,
    Backspace,
    Tab,
    Q,
    W,
    E,
    R,
    T,
    Y,
    U,
    I,
    O,
    P,
    LeftBracket,
    RightBracket,
    Enter,
    LeftCtrl,
    A,
    S,
    D,
    F,
    G,
    H,
    J,
    K,
    L,
    Semicolon,
    Quote,
    Backtick,
    LeftShift,
    Backslash,
    Z,
    X,
    C,
    V,
    B,
    N,
    M,
    Comma,
    Period,
    Slash,
    RightShift,
    KeypadAsterisk,
    LeftAlt,
    Space,
    CapsLock,
    F1,
    F2,
    F3,
    F4,
    F5,
    F6,
    F7,
    F8,
    F9,
    F10,
    Up,
    Left,
    Right,
    Down,
    Unknown,
}

/// The keycode a scancode's low seven bits denote.
pub open spec fn spec_from_scancode(scancode: u8) -> KeyCode {
    spec_keycode_of(scancode & 0x7F)
}

/// The keycode table over the masked scancode.
pub open spec fn spec_keycode_of(code: u8) -> KeyCode {
    match code {
        0x01 => KeyCode::Escape,
        0x02 => KeyCode::Key1,
        0x03 => KeyCode::Key2,
        0x04 => KeyCode::Key3,
        0x05 => KeyCode::Key4,
        0x06 => KeyCode::Key5,
        0x07 => KeyCode::Key6,
        0x08 => KeyCode::Key7,
        0x09 => KeyCode::Key8,
        0x0A => KeyCode::Key9,
        0x0B => KeyCode::Key0,
        0x0C => KeyCode::Minus,
        0x0D => KeyCode::Equals,
        0x0E => KeyCode::Backspace,
        0x0F => KeyCode::Tab,
        0x10 => KeyCode::Q,
        0x11 => KeyCode::W,
        0x12 => KeyCode::E,
        0x13 => KeyCode::R,
        0x14 => KeyCode::T,
        0x15 => KeyCode::Y,
        0x16 => KeyCode::U,
        0x17 => KeyCode::I,
        0x18 => KeyCode::O,
        0x19 => KeyCode::P,
        0x1A => KeyCode::LeftBracket,
        0x1B => KeyCode::RightBracket,
        0x1C => KeyCode::Enter,
        0x1D => KeyCode::LeftCtrl,
        0x1E => KeyCode::A,
        0x1F => KeyCode::S,
        0x20 => KeyCode::D,
        0x21 => KeyCode::F,
        0x22 => KeyCode::G,
        0x23 => KeyCode::H,
        0x24 => KeyCode::J,
        0x25 => KeyCode::K,
        0x26 => KeyCode::L,
        0x27 => KeyCode::Semicolon,
        0x28 => KeyCode::Quote,
        0x29 => KeyCode::Backtick,
        0x2A => KeyCode::LeftShift,
        0x2B => KeyCode::Backslash,
        0x2C => KeyCode::Z,
        0x2D => KeyCode::X,
        0x2E => KeyCode::C,
        0x2F => KeyCode::V,
        0x30 => KeyCode::B,
        0x31 => KeyCode::N,
        0x32 => KeyCode::M,
        0x33 => KeyCode::Comma,
        0x34 => KeyCode::Period,
        0x35 => KeyCode::Slash,
        0x36 => KeyCode::RightShift,
        0x37 => KeyCode::KeypadAsterisk,
        0x38 => KeyCode::LeftAlt,
        0x39 => KeyCode::Space,
        0x3A => KeyCode::CapsLock,
        0x3B => KeyCode::F1,
        0x3C => KeyCode::F2,
        0x3D => KeyCode::F3,
        0x3E => KeyCode::F4,
        0x3F => KeyCode::F5,
        0x40 => KeyCode::F6,
        0x41 => KeyCode::F7,
        0x42 => KeyCode::F8,
        0x43 => KeyCode::F9,
        0x44 => KeyCode::F10,
        0x48 => KeyCode::Up,
        0x4B => KeyCode::Left,
        0x4D => KeyCode::Right,
        0x50 => KeyCode::Down,
        _ => KeyCode::Unknown,
    }
}

/// The ASCII translation of a keycode under the given shift state.
pub open spec fn spec_to_ascii(kc: KeyCode, shift: bool) -> Option<char> {
    match kc {
        KeyCode::Key1 => Some(if shift { '!' } else { '1' }),
        KeyCode::Key2 => Some(if shift { '@' } else { '2' }),
        KeyCode::Key3 => Some(if shift { '#' } else { '3' }),
        KeyCode::Key4 => Some(if shift { '$' } else { '4' }),
        KeyCode::Key5 => Some(if shift { '%' } else { '5' }),
        KeyCode::Key6 => Some(if shift { '^' } else { '6' }),
        KeyCode::Key7 => Some(if shift { '&' } else { '7' }),
        KeyCode::Key8 => Some(if shift { '*' } else { '8' }),
        KeyCode::Key9 => Some(if shift { '(' } else { '9' }),
        KeyCode::Key0 => Some(if shift { ')' } else { '0' }),
        KeyCode::Minus => Some(if shift { '_' } else { '-' }),
        KeyCode::Equals => Some(if shift { '+' } else { '=' }),
        KeyCode::Q => Some(if shift { 'Q' } else { 'q' }),
        KeyCode::W => Some(if shift { 'W' } else { 'w' }),
        KeyCode::E => Some(if shift { 'E' } else { 'e' }),
        KeyCode::R => Some(if shift { 'R' } else { 'r' }),
        KeyCode::T => Some(if shift { 'T' } else { 't' }),
        KeyCode::Y => Some(if shift { 'Y' } else { 'y' }),
        KeyCode::U => Some(if shift { 'U' } else { 'u' }),
        KeyCode::I => Some(if shift { 'I' } else { 'i' }),
        KeyCode::O => Some(if shift { 'O' } else { 'o' }),
        KeyCode::P => Some(if shift { 'P' } else { 'p' }),
        KeyCode::LeftBracket => Some(if shift { '{' } else { '[' }),
        KeyCode::RightBracket => Some(if shift { '}' } else { ']' }),
        KeyCode::A => Some(if shift { 'A' } else { 'a' }),
        KeyCode::S => Some(if shift { 'S' } else { 's' }),
        KeyCode::D => Some(if shift { 'D' } else { 'd' }),
        KeyCode::F => Some(if shift { 'F' } else { 'f' }),
        KeyCode::G => Some(if shift { 'G' } else { 'g' }),
        KeyCode::H => Some(if shift { 'H' } else { 'h' }),
        KeyCode::J => Some(if shift { 'J' } else { 'j' }),
        KeyCode::K => Some(if shift { 'K' } else { 'k' }),
        KeyCode::L => Some(if shift { 'L' } else { 'l' }),
        KeyCode::Semicolon => Some(if shift { ':' } else { ';' }),
        KeyCode::Quote => Some(if shift { '"' } else { '\'' }),
        KeyCode::Backtick => Some(if shift { '~' } else { '`' }),
        KeyCode::Backslash => Some(if shift { '|' } else { '\\' }),
        KeyCode::Z => Some(if shift { 'Z' } else { 'z' }),
        KeyCode::X => Some(if shift { 'X' } else { 'x' }),
        KeyCode::C => Some(if shift { 'C' } else { 'c' }),
        KeyCode::V => Some(if shift { 'V' } else { 'v' }),
        KeyCode::B => Some(if shift { 'B' } else { 'b' }),
        KeyCode::N => Some(if shift { 'N' } else { 'n' }),
        KeyCode::M => Some(if shift { 'M' } else { 'm' }),
        KeyCode::Comma => Some(if shift { '<' } else { ',' }),
        KeyCode::Period => Some(if shift { '>' } else { '.' }),
        KeyCode::Slash => Some(if shift { '?' } else { '/' }),
        KeyCode::Space => Some(' '),
        _ => None,
    }
}

impl KeyCode {
    /// Decode a scancode's low seven bits into a keycode.
    pub fn from_scancode(scancode: u8) -> (r: KeyCode)
        ensures
            r == spec_from_scancode(scancode),
    {
        match scancode & 0x7F {
            0x01 => KeyCode::Escape,
            0x02 => KeyCode::Key1,
            0x03 => KeyCode::Key2,
            0x04 => KeyCode::Key3,
            0x05 => KeyCode::Key4,
            0x06 => KeyCode::Key5,
            0x07 => KeyCode::Key6,
            0x08 => KeyCode::Key7,
            0x09 => KeyCode::Key8,
            0x0A => KeyCode::Key9,
            0x0B => KeyCode::Key0,
            0x0C => KeyCode::Minus,
            0x0D => KeyCode::Equals,
            0x0E => KeyCode::Backspace,
            0x0F => KeyCode::Tab,
            0x10 => KeyCode::Q,
            0x11 => KeyCode::W,
            0x12 => KeyCode::E,
            0x13 => KeyCode::R,
            0x14 => KeyCode::T,
            0x15 => KeyCode::Y,
            0x16 => KeyCode::U,
            0x17 => KeyCode::I,
            0x18 => KeyCode::O,
            0x19 => KeyCode::P,
            0x1A => KeyCode::LeftBracket,
            0x1B => KeyCode::RightBracket,
            0x1C => KeyCode::Enter,
            0x1D => KeyCode::LeftCtrl,
            0x1E => KeyCode::A,
            0x1F => KeyCode::S,
            0x20 => KeyCode::D,
            0x21 => KeyCode::F,
            0x22 => KeyCode::G,
            0x23 => KeyCode::H,
            0x24 => KeyCode::J,
            0x25 => KeyCode::K,
            0x26 => KeyCode::L,
            0x27 => KeyCode::Semicolon,
            0x28 => KeyCode::Quote,
            0x29 => KeyCode::Backtick,
            0x2A => KeyCode::LeftShift,
            0x2B => KeyCode::Backslash,
            0x2C => KeyCode::Z,
            0x2D => KeyCode::X,
            0x2E => KeyCode::C,
            0x2F => KeyCode::V,
            0x30 => KeyCode::B,
            0x31 => KeyCode::N,
            0x32 => KeyCode::M,
            0x33 => KeyCode::Comma,
            0x34 => KeyCode::Period,
            0x35 => KeyCode::Slash,
            0x36 => KeyCode::RightShift,
            0x37 => KeyCode::KeypadAsterisk,
            0x38 => KeyCode::LeftAlt,
            0x39 => KeyCode::Space,
            0x3A => KeyCode::CapsLock,
            0x3B => KeyCode::F1,
            0x3C => KeyCode::F2,
            0x3D => KeyCode::F3,
            0x3E => KeyCode::F4,
            0x3F => KeyCode::F5,
            0x40 => KeyCode::F6,
            0x41 => KeyCode::F7,
            0x42 => KeyCode::F8,
            0x43 => KeyCode::F9,
            0x44 => KeyCode::F10,
            0x48 => KeyCode::Up,
            0x4B => KeyCode::Left,
            0x4D => KeyCode::Right,
            0x50 => KeyCode::Down,
            _ => KeyCode::Unknown,
        }
    }

    /// The ASCII translation under the given shift state, if any.
    pub fn to_ascii(self, shift: bool) -> (r: Option<char>)
        ensures
            r == spec_to_ascii(self, shift),
    {
        match self {
            KeyCode::Key1 => Some(if shift { '!' } else { '1' }),
            KeyCode::Key2 => Some(if shift { '@' } else { '2' }),
            KeyCode::Key3 => Some(if shift { '#' } else { '3' }),
            KeyCode::Key4 => Some(if shift { '$' } else { '4' }),
            KeyCode::Key5 => Some(if shift { '%' } else { '5' }),
            KeyCode::Key6 => Some(if shift { '^' } else { '6' }),
            KeyCode::Key7 => Some(if shift { '&' } else { '7' }),
            KeyCode::Key8 => Some(if shift { '*' } else { '8' }),
            KeyCode::Key9 => Some(if shift { '(' } else { '9' }),
            KeyCode::Key0 => Some(if shift { ')' } else { '0' }),
            KeyCode::Minus => Some(if shift { '_' } else { '-' }),
            KeyCode::Equals => Some(if shift { '+' } else { '=' }),
            KeyCode::Q => Some(if shift { 'Q' } else { 'q' }),
            KeyCode::W => Some(if shift { 'W' } else { 'w' }),
            KeyCode::E => Some(if shift { 'E' } else { 'e' }),
            KeyCode::R => Some(if shift { 'R' } else { 'r' }),
            KeyCode::T => Some(if shift { 'T' } else { 't' }),
            KeyCode::Y => Some(if shift { 'Y' } else { 'y' }),
            KeyCode::U => Some(if shift { 'U' } else { 'u' }),
            KeyCode::I => Some(if shift { 'I' } else { 'i' }),
            KeyCode::O => Some(if shift { 'O' } else { 'o' }),
            KeyCode::P => Some(if shift { 'P' } else { 'p' }),
            KeyCode::LeftBracket => Some(if shift { '{' } else { '[' }),
            KeyCode::RightBracket => Some(if shift { '}' } else { ']' }),
            KeyCode::A => Some(if shift { 'A' } else { 'a' }),
            KeyCode::S => Some(if shift { 'S' } else { 's' }),
            KeyCode::D => Some(if shift { 'D' } else { 'd' }),
            KeyCode::F => Some(if shift { 'F' } else { 'f' }),
            KeyCode::G => Some(if shift { 'G' } else { 'g' }),
            KeyCode::H => Some(if shift { 'H' } else { 'h' }),
            KeyCode::J => Some(if shift { 'J' } else { 'j' }),
            KeyCode::K => Some(if shift { 'K' } else { 'k' }),
            KeyCode::L => Some(if shift { 'L' } else { 'l' }),
            KeyCode::Semicolon => Some(if shift { ':' } else { ';' }),
            KeyCode::Quote => Some(if shift { '"' } else { '\'' }),
            KeyCode::Backtick => Some(if shift { '~' } else { '`' }),
            KeyCode::Backslash => Some(if shift { '|' } else { '\\' }),
            KeyCode::Z => Some(if shift { 'Z' } else { 'z' }),
            KeyCode::X => Some(if shift { 'X' } else { 'x' }),
            KeyCode::C => Some(if shift { 'C' } else { 'c' }),
            KeyCode::V => Some(if shift { 'V' } else { 'v' }),
            KeyCode::B => Some(if shift { 'B' } else { 'b' }),
            KeyCode::N => Some(if shift { 'N' } else { 'n' }),
            KeyCode::M => Some(if shift { 'M' } else { 'm' }),
            KeyCode::Comma => Some(if shift { '<' } else { ',' }),
            KeyCode::Period => Some(if shift { '>' } else { '.' }),
            KeyCode::Slash => Some(if shift { '?' } else { '/' }),
            KeyCode::Space => Some(' '),
            _ => None,
        }
    }
}

/// Ring capacity for buffered key events
pub const KEY_BUFFER_SIZE: usize = 16;

/// Whether ring slot `i` lies in the cyclic interval `[r, w)`: the slots
/// that hold buffered keys not yet read.
pub open spec fn spec_ring_occupied(r: int, w: int, i: int) -> bool {
    if r <= w {
        r <= i < w
    } else {
        i >= r || i < w
    }
}

/// Buffered key press with ASCII translation
#[derive(Clone, Copy, Debug, PartialEq, Eq, Structural)]
pub struct BufferedKey {
    pub keycode: KeyCode,
    pub ascii: Option<char>,
    pub pressed: bool,
}

/// Keyboard state: modifier flags, the extended-prefix latch, and the
/// event ring with separate read and write indices.  The ring is empty
/// exactly when the indices are equal; a writer that laps the reader makes
/// the ring look empty again, which the small capacity accepts.
pub struct Keyboard {
    shift_pressed: bool,
    ctrl_pressed: bool,
    alt_pressed: bool,
    caps_lock: bool,
    extended: bool,
    buffer: Vec<Option<BufferedKey>>,
    write_idx: usize,
    read_idx: usize,
}

impl Keyboard {
    pub closed spec fn spec_shift(&self) -> bool {
        self.shift_pressed
    }

    pub closed spec fn spec_ctrl(&self) -> bool {
        self.ctrl_pressed
    }

    pub closed spec fn spec_alt(&self) -> bool {
        self.alt_pressed
    }

    pub closed spec fn spec_caps_lock(&self) -> bool {
        self.caps_lock
    }

    pub closed spec fn spec_extended(&self) -> bool {
        self.extended
    }

    pub closed spec fn spec_buffer(&self) -> Seq<Option<BufferedKey>> {
        self.buffer@
    }

    pub closed spec fn spec_read_idx(&self) -> int {
        self.read_idx as int
    }

    pub closed spec fn spec_write_idx(&self) -> int {
        self.write_idx as int
    }

    pub closed spec fn wf(&self) -> bool {
        &&& self.buffer.len() == KEY_BUFFER_SIZE
        &&& self.read_idx < KEY_BUFFER_SIZE
        &&& self.write_idx < KEY_BUFFER_SIZE
        &&& forall|i: int|
            0 <= i < KEY_BUFFER_SIZE && spec_ring_occupied(
                self.read_idx as int,
                self.write_idx as int,
                i,
            ) ==> (#[trigger] self.buffer@[i]) is Some
    }

    /// A well-formed keyboard's ring always has the full capacity, its
    /// indices stay inside it, and a non-empty ring has a key at the read
    /// index.
    pub proof fn lemma_wf_ring(&self)
        requires
            self.wf(),
        ensures
            self.spec_buffer().len() == KEY_BUFFER_SIZE,
            0 <= self.spec_read_idx() < KEY_BUFFER_SIZE,
            0 <= self.spec_write_idx() < KEY_BUFFER_SIZE,
            self.spec_read_idx() != self.spec_write_idx() ==> self.spec_buffer()[self.spec_read_idx()] is Some,
    {
    }

    pub fn new() -> (r: Keyboard)
        ensures
            r.wf(),
            !r.spec_shift() && !r.spec_ctrl() && !r.spec_alt() && !r.spec_caps_lock()
                && !r.spec_extended(),
            r.spec_read_idx() == 0 && r.spec_write_idx() == 0,
            forall|i: int| 0 <= i < KEY_BUFFER_SIZE ==> r.spec_buffer()[i] is None,
    {
        let mut buffer: Vec<Option<BufferedKey>> = Vec::new();
        let mut i: usize = 0;
        while i < KEY_BUFFER_SIZE
            invariant
                i <= KEY_BUFFER_SIZE,
                buffer@.len() == i,
                forall|j: int| 0 <= j < i ==> buffer@[j] is None,
            decreases KEY_BUFFER_SIZE - i,
        {
            buffer.push(None);
            i += 1;
        }
        Keyboard {
            shift_pressed: false,
            ctrl_pressed: false,
            alt_pressed: false,
            caps_lock: false,
            extended: false,
            buffer,
            write_idx: 0,
            read_idx: 0,
        }
    }

    /// Process one scancode from the stream.
    ///
    /// `0xE0` latches the extended prefix and produces nothing.  Any other
    /// byte clears the prefix, updates the modifiers, and on a press
    /// appends the translated key to the ring at the write index
    /// (overwriting whatever was there) and advances it.  Returns the
    /// decoded press or release event.
    pub fn process_scancode(&mut self, scancode: u8) -> (r: Option<KeyEvent>)
        requires
            old(self).wf(),
        ensures
            final(self).wf(),
            scancode == 0xE0 ==> {
                &&& r is None
                &&& final(self).spec_extended()
                &&& final(self).spec_shift() == old(self).spec_shift()
                &&& final(self).spec_ctrl() == old(self).spec_ctrl()
                &&& final(self).spec_alt() == old(self).spec_alt()
                &&& final(self).spec_caps_lock() == old(self).spec_caps_lock()
                &&& final(self).spec_buffer() == old(self).spec_buffer()
                &&& final(self).spec_read_idx() == old(self).spec_read_idx()
                &&& final(self).spec_write_idx() == old(self).spec_write_idx()
            },
            scancode != 0xE0 ==> {
                let released = scancode & 0x80 != 0;
                let kc = spec_from_scancode(scancode);
                let new_shift = if kc == KeyCode::LeftShift || kc == KeyCode::RightShift {
                    !released
                } else {
                    old(self).spec_shift()
                };
                let new_ctrl = if kc == KeyCode::LeftCtrl {
                    !released
                } else {
                    old(self).spec_ctrl()
                };
                let new_alt = if kc == KeyCode::LeftAlt {
                    !released
                } else {
                    old(self).spec_alt()
                };
                let new_caps = if kc == KeyCode::CapsLock && !released {
                    !old(self).spec_caps_lock()
                } else {
                    old(self).spec_caps_lock()
                };
                &&& final(self).spec_shift() == new_shift
                &&& final(self).spec_ctrl() == new_ctrl
                &&& final(self).spec_alt() == new_alt
                &&& final(self).spec_caps_lock() == new_caps
                &&& !final(self).spec_extended()
                &&& final(self).spec_read_idx() == old(self).spec_read_idx()
                &&& (if released {
                    &&& r == Some(KeyEvent::Release(kc))
                    &&& final(self).spec_buffer() == old(self).spec_buffer()
                    &&& final(self).spec_write_idx() == old(self).spec_write_idx()
                } else {
                    let key = BufferedKey {
                        keycode: kc,
                        ascii: spec_to_ascii(kc, new_shift ^ new_caps),
                        pressed: true,
                    };
                    &&& r == Some(KeyEvent::Press(kc))
                    &&& final(self).spec_buffer() == old(self).spec_buffer().update(
                        old(self).spec_write_idx(),
                        Some(key),
                    )
                    &&& final(self).spec_write_idx() == (old(self).spec_write_idx() + 1) % (
                    KEY_BUFFER_SIZE as int)
                })
            },
    {
        if scancode == 0xE0 {
            self.extended = true;
            return None;
        }

        let released = scancode & 0x80 != 0;
        let keycode = KeyCode::from_scancode(scancode);

        match keycode {
            KeyCode::LeftShift | KeyCode::RightShift => {
                self.shift_pressed = !released;
            },
            KeyCode::LeftCtrl => {
                self.ctrl_pressed = !released;
            },
            KeyCode::LeftAlt => {
                self.alt_pressed = !released;
            },
            KeyCode::CapsLock => {
                if !released {
                    self.caps_lock = !self.caps_lock;
                }
            },
            _ => {},
        }

        self.extended = false;

        if !released {
            let shift = self.shift_pressed ^ self.caps_lock;
            let ascii = keycode.to_ascii(shift);
            let key = BufferedKey { keycode, ascii, pressed: true };
            self.buffer.set(self.write_idx, Some(key));
            self.write_idx = (self.write_idx + 1) % KEY_BUFFER_SIZE;
        }

        if released {
            Some(KeyEvent::Release(keycode))
        } else {
            Some(KeyEvent::Press(keycode))
        }
    }

    /// Take the next key from the ring, if the indices differ; the slot is
    /// cleared and the read index advances.
    pub fn get_key(&mut self) -> (r: Option<BufferedKey>)
        requires
            old(self).wf(),
        ensures
            final(self).wf(),
            old(self).spec_read_idx() == old(self).spec_write_idx() ==> r is None && *final(self)
                == *old(self),
            old(self).spec_read_idx() != old(self).spec_write_idx() ==> {
                &&& r is Some
                &&& r == old(self).spec_buffer()[old(self).spec_read_idx()]
                &&& final(self).spec_buffer() == old(self).spec_buffer().update(
                    old(self).spec_read_idx(),
                    Option::<BufferedKey>::None,
                )
                &&& final(self).spec_read_idx() == (old(self).spec_read_idx() + 1) % (
                KEY_BUFFER_SIZE as int)
                &&& final(self).spec_write_idx() == old(self).spec_write_idx()
                &&& final(self).spec_shift() == old(self).spec_shift()
            },
    {
        if self.read_idx == self.write_idx {
            return None;
        }

        let key = self.buffer[self.read_idx];
        self.buffer.set(self.read_idx, None);
        self.read_idx = (self.read_idx + 1) % KEY_BUFFER_SIZE;
        key
    }

    /// Get ASCII for a keycode using current modifier state
    pub fn get_ascii(&self, keycode: KeyCode) -> (r: Option<char>)
        ensures
            r == spec_to_ascii(keycode, self.spec_shift() ^ self.spec_caps_lock()),
    {
        let shift = self.shift_pressed ^ self.caps_lock;
        keycode.to_ascii(shift)
    }

    /// Check if shift is pressed
    pub fn shift(&self) -> (r: bool)
        ensures
            r == self.spec_shift(),
    {
        self.shift_pressed
    }
}

} // verus!
