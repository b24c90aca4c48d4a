//! Synaptics touchpad state machine, run in relative mode for robustness
//! on vintage hardware.
//!
//! The packet decoding is the PS/2 relative protocol with a sensitivity
//! factor applied to each committed delta.  The bring-up sequence (magic
//! knock, sample rate, data reporting) is port I/O and lives with the
//! caller; the identification byte it reads comes back here as a plain
//! flag.

use vstd::prelude::*;
use crate::mouse::{clamp_i64, spec_clamp, spec_delta};

verus! {

/// Touchpad driver state (relative mode).
pub struct SynapticsTouchpad {
    /// Whether the bring-up sequence has completed
    pub is_initialized: bool,
    pub is_synaptics: bool,
    pub packet: Vec<u8>,
    pub packet_idx: usize,
    pub screen_width: u32,
    pub screen_height: u32,
    pub cursor_x: i32,
    pub cursor_y: i32,
    pub buttons: u8,
    pub sensitivity: i32,
}

impl SynapticsTouchpad {
    pub open spec fn spec_packet(&self) -> Seq<u8> {
        self.packet@
    }

    pub open spec fn spec_packet_idx(&self) -> int {
        self.packet_idx as int
    }

    pub open spec fn spec_screen_width(&self) -> int {
        self.screen_width as int
    }

    pub open spec fn spec_screen_height(&self) -> int {
        self.screen_height as int
    }

    pub open spec fn spec_cursor(&self) -> (int, int) {
        (self.cursor_x as int, self.cursor_y as int)
    }

    pub open spec fn spec_buttons(&self) -> u8 {
        self.buttons
    }

    pub open spec fn spec_sensitivity(&self) -> int {
        self.sensitivity as int
    }

    pub open spec fn spec_is_synaptics(&self) -> bool {
        self.is_synaptics
    }

    pub open spec fn wf(&self) -> bool {
        &&& self.packet.len() == 3
        &&& self.packet_idx < 3
        &&& 1 <= self.screen_width <= 0x7FFFFFFF
        &&& 1 <= self.screen_height <= 0x7FFFFFFF
        &&& 0 <= self.sensitivity <= 1024
    }

    pub fn new() -> (r: SynapticsTouchpad)
        ensures
            r.wf(),
            !r.is_initialized,
            !r.spec_is_synaptics(),
            r.spec_packet_idx() == 0,
            r.spec_screen_width() == 800 && r.spec_screen_height() == 600,
            r.spec_cursor() == (400int, 300int),
            r.spec_buttons() == 0,
            r.spec_sensitivity() == 2,
    {
        let mut packet: Vec<u8> = Vec::new();
        packet.push(0);
        packet.push(0);
        packet.push(0);
        SynapticsTouchpad {
            is_initialized: false,
            is_synaptics: false,
            packet,
            packet_idx: 0,
            screen_width: 800,
            screen_height: 600,
            cursor_x: 400,
            cursor_y: 300,
            buttons: 0,
            sensitivity: 2,
        }
    }

    /// Set the screen bounds; the cursor recentres.
    pub fn set_screen_size(&mut self, width: u32, height: u32)
        requires
            old(self).wf(),
            1 <= width <= 0x7FFFFFFF,
            1 <= height <= 0x7FFFFFFF,
        ensures
            final(self).wf(),
            final(self).spec_screen_width() == width,
            final(self).spec_screen_height() == height,
            final(self).spec_cursor() == ((width / 2) as int, (height / 2) as int),
            final(self).spec_packet_idx() == old(self).spec_packet_idx(),
            final(self).spec_buttons() == old(self).spec_buttons(),
            final(self).spec_sensitivity() == old(self).spec_sensitivity(),
            final(self).is_initialized == old(self).is_initialized,
            final(self).spec_is_synaptics() == old(self).spec_is_synaptics(),
    {
        self.screen_width = width;
        self.screen_height = height;
        self.cursor_x = (width / 2) as i32;
        self.cursor_y = (height / 2) as i32;
    }

    /// Record the outcome of the bring-up sequence: whether the device
    /// answered the identification knock with the Synaptics signature.
    /// The sync index restarts, as after any reset.
    pub fn set_identified(&mut self, synaptics: bool)
        requires
            old(self).wf(),
        ensures
            final(self).wf(),
            final(self).is_initialized,
            final(self).spec_is_synaptics() == synaptics,
            final(self).spec_packet_idx() == 0,
            final(self).spec_cursor() == old(self).spec_cursor(),
            final(self).spec_buttons() == old(self).spec_buttons(),
            final(self).spec_screen_width() == old(self).spec_screen_width(),
            final(self).spec_screen_height() == old(self).spec_screen_height(),
            final(self).spec_sensitivity() == old(self).spec_sensitivity(),
    {
        self.is_synaptics = synaptics;
        self.is_initialized = true;
        self.packet_idx = 0;
    }

    /// Process a byte from the touchpad.  Returns true exactly when it
    /// completed a packet.
    pub fn process_byte(&mut self, byte: u8) -> (r: bool)
        requires
            old(self).wf(),
        ensures
            final(self).wf(),
            old(self).spec_packet_idx() == 0 && byte & 0x08 == 0 ==> {
                &&& r == false
                &&& *final(self) == *old(self)
            },
            !(old(self).spec_packet_idx() == 0 && byte & 0x08 == 0) && old(self).spec_packet_idx()
                < 2 ==> {
                &&& r == false
                &&& final(self).spec_packet() == old(self).spec_packet().update(
                    old(self).spec_packet_idx(),
                    byte,
                )
                &&& final(self).spec_packet_idx() == old(self).spec_packet_idx() + 1
                &&& final(self).spec_cursor() == old(self).spec_cursor()
                &&& final(self).spec_buttons() == old(self).spec_buttons()
                &&& final(self).spec_screen_width() == old(self).spec_screen_width()
                &&& final(self).spec_screen_height() == old(self).spec_screen_height()
                &&& final(self).spec_sensitivity() == old(self).spec_sensitivity()
            },
            old(self).spec_packet_idx() == 2 ==> {
                let flags = old(self).spec_packet()[0];
                let dx = spec_delta(flags, old(self).spec_packet()[1], 0x10, 0x40);
                let dy = spec_delta(flags, byte, 0x20, 0x80);
                let sens = old(self).spec_sensitivity();
                &&& r == true
                &&& final(self).spec_packet_idx() == 0
                &&& final(self).spec_cursor().0 == spec_clamp(
                    old(self).spec_cursor().0 + dx * sens,
                    0,
                    old(self).spec_screen_width() - 1,
                )
                &&& final(self).spec_cursor().1 == spec_clamp(
                    old(self).spec_cursor().1 - dy * sens,
                    0,
                    old(self).spec_screen_height() - 1,
                )
                &&& final(self).spec_buttons() == flags & 0x07
                &&& final(self).spec_screen_width() == old(self).spec_screen_width()
                &&& final(self).spec_screen_height() == old(self).spec_screen_height()
                &&& final(self).spec_sensitivity() == old(self).spec_sensitivity()
            },
    {
        if self.packet_idx == 0 && (byte & 0x08) == 0 {
            // out of sync: drop the byte
            return false;
        }

        self.packet.set(self.packet_idx, byte);
        self.packet_idx = self.packet_idx + 1;

        if self.packet_idx >= 3 {
            self.packet_idx = 0;
            self.parse_packet();
            return true;
        }

        false
    }

    /// Commit a complete 3-byte packet into cursor and button state.
    fn parse_packet(&mut self)
        requires
            old(self).wf(),
        ensures
            final(self).wf(),
            ({
                let flags = old(self).spec_packet()[0];
                let dx = spec_delta(flags, old(self).spec_packet()[1], 0x10, 0x40);
                let dy = spec_delta(flags, old(self).spec_packet()[2], 0x20, 0x80);
                let sens = old(self).spec_sensitivity();
                &&& final(self).spec_cursor().0 == spec_clamp(
                    old(self).spec_cursor().0 + dx * sens,
                    0,
                    old(self).spec_screen_width() - 1,
                )
                &&& final(self).spec_cursor().1 == spec_clamp(
                    old(self).spec_cursor().1 - dy * sens,
                    0,
                    old(self).spec_screen_height() - 1,
                )
                &&& final(self).spec_buttons() == flags & 0x07
                &&& final(self).spec_packet() == old(self).spec_packet()
                &&& final(self).spec_packet_idx() == old(self).spec_packet_idx()
                &&& final(self).spec_screen_width() == old(self).spec_screen_width()
                &&& final(self).spec_screen_height() == old(self).spec_screen_height()
                &&& final(self).spec_sensitivity() == old(self).spec_sensitivity()
                &&& final(self).is_initialized == old(self).is_initialized
                &&& final(self).spec_is_synaptics() == old(self).spec_is_synaptics()
            }),
    {
        let flags = self.packet[0];
        let mut dx: i64 = self.packet[1] as i64;
        let mut dy: i64 = self.packet[2] as i64;

        if flags & 0x10 != 0 {
            dx = dx - 256;
        }
        if flags & 0x20 != 0 {
            dy = dy - 256;
        }
        if flags & 0x40 != 0 {
            dx = 0;
        }
        if flags & 0x80 != 0 {
            dy = 0;
        }

        self.buttons = flags & 0x07;

        let sens = self.sensitivity as i64;
        proof {
            assert(-262144 <= dx * sens <= 262144 && -262144 <= dy * sens <= 262144)
                by (nonlinear_arith)
                requires
                    -256 <= dx <= 255,
                    -256 <= dy <= 255,
                    0 <= sens <= 1024,
            ;
        }
        let nx = clamp_i64((self.cursor_x as i64) + dx * sens, 0, (self.screen_width as i64) - 1);
        let ny = clamp_i64((self.cursor_y as i64) - dy * sens, 0, (self.screen_height as i64) - 1);
        self.cursor_x = nx as i32;
        self.cursor_y = ny as i32;
    }

    /// Get the cursor position.
    pub fn get_position(&self) -> (r: (i32, i32))
        ensures
            r.0 == self.spec_cursor().0 && r.1 == self.spec_cursor().1,
    {
        (self.cursor_x, self.cursor_y)
    }

    /// Get the button state.
    pub fn get_buttons(&self) -> (r: u8)
        ensures
            r == self.spec_buttons(),
    {
        self.buttons
    }

    /// Whether the device identified as a Synaptics touchpad.
    pub fn is_synaptics(&self) -> (r: bool)
        ensures
            r == self.spec_is_synaptics(),
    {
        self.is_synaptics
    }
}

} // verus!
