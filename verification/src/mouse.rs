//! PS/2 mouse state machine: 3-byte relative packets to cursor and button
//! state.
//!
//! Sync is enforced by requiring bit 3 of a packet's first byte: any first
//! byte without it is dropped and the packet index stays at zero.  On the
//! third byte the packet is committed: the deltas are sign-extended per
//! bits 4 and 5 of the flags, zeroed on overflow (bits 6 and 7), the Y axis
//! is inverted, and the cursor is clamped to the screen bounds.

use vstd::prelude::*;

verus! {

/// Clamp `v` into `[lo, hi]`.
pub open spec fn spec_clamp(v: int, lo: int, hi: int) -> int {
    if v < lo {
        lo
    } else if v > hi {
        hi
    } else {
        v
    }
}

/// A relative delta: the raw byte sign-extended by `sign` and zeroed by
/// `ovf`, both read from the packet's flags byte.
pub open spec fn spec_delta(flags: u8, raw: u8, sign: u8, ovf: u8) -> int {
    if flags & ovf != 0 {
        0
    } else if flags & sign != 0 {
        raw - 256
    } else {
        raw as int
    }
}

/// Mouse state
pub struct Mouse {
    /// Current X position
    pub x: i32,
    /// Current Y position
    pub y: i32,
    /// Button state (bit 0 = left, bit 1 = right, bit 2 = middle)
    pub buttons: u8,
    /// Packet buffer
    pub packet: Vec<u8>,
    /// Current byte in packet
    pub packet_idx: u8,
    /// Screen bounds
    pub max_x: i32,
    pub max_y: i32,
}

impl Mouse {
    pub open spec fn spec_packet(&self) -> Seq<u8> {
        self.packet@
    }

    pub open spec fn spec_packet_idx(&self) -> int {
        self.packet_idx as int
    }

    pub open spec fn spec_max_x(&self) -> int {
        self.max_x as int
    }

    pub open spec fn spec_max_y(&self) -> int {
        self.max_y as int
    }

    pub open spec fn wf(&self) -> bool {
        &&& self.packet.len() == 3
        &&& self.packet_idx < 3
        &&& self.max_x >= 1
        &&& self.max_y >= 1
    }

    pub fn new() -> (r: Mouse)
        ensures
            r.wf(),
            r.x == 0 && r.y == 0 && r.buttons == 0,
            r.spec_packet_idx() == 0,
            r.spec_max_x() == 800 && r.spec_max_y() == 600,
    {
        let mut packet: Vec<u8> = Vec::new();
        packet.push(0);
        packet.push(0);
        packet.push(0);
        Mouse { x: 0, y: 0, buttons: 0, packet, packet_idx: 0, max_x: 800, max_y: 600 }
    }

    /// Set screen bounds for clamping; the cursor recentres.
    pub fn set_bounds(&mut self, width: u32, height: u32)
        requires
            old(self).wf(),
            1 <= width <= 0x7FFFFFFF,
            1 <= height <= 0x7FFFFFFF,
        ensures
            final(self).wf(),
            final(self).spec_max_x() == width,
            final(self).spec_max_y() == height,
            final(self).x == width / 2,
            final(self).y == height / 2,
            final(self).buttons == old(self).buttons,
            final(self).spec_packet_idx() == old(self).spec_packet_idx(),
            final(self).spec_packet() == old(self).spec_packet(),
    {
        self.max_x = width as i32;
        self.max_y = height as i32;
        self.x = (width as i32) / 2;
        self.y = (height as i32) / 2;
    }

    /// Process a byte from the mouse.  Returns true exactly when it
    /// completed a packet.
    pub fn process_byte(&mut self, byte: u8) -> (r: bool)
        requires
            old(self).wf(),
        ensures
            final(self).wf(),
            old(self).spec_packet_idx() == 0 && byte & 0x08 == 0 ==> {
                &&& r == false
                &&& *final(self) == *old(self)
            },
            !(old(self).spec_packet_idx() == 0 && byte & 0x08 == 0) && old(self).spec_packet_idx()
                < 2 ==> {
                &&& r == false
                &&& final(self).spec_packet() == old(self).spec_packet().update(
                    old(self).spec_packet_idx(),
                    byte,
                )
                &&& final(self).spec_packet_idx() == old(self).spec_packet_idx() + 1
                &&& final(self).x == old(self).x && final(self).y == old(self).y
                &&& final(self).buttons == old(self).buttons
                &&& final(self).spec_max_x() == old(self).spec_max_x() && final(self).spec_max_y()
                    == old(self).spec_max_y()
            },
            old(self).spec_packet_idx() == 2 ==> {
                let flags = old(self).spec_packet()[0];
                let dx = spec_delta(flags, old(self).spec_packet()[1], 0x10, 0x40);
                let dy = spec_delta(flags, byte, 0x20, 0x80);
                &&& r == true
                &&& final(self).spec_packet_idx() == 0
                &&& final(self).x == spec_clamp(old(self).x + dx, 0, old(self).spec_max_x() - 1)
                &&& final(self).y == spec_clamp(old(self).y - dy, 0, old(self).spec_max_y() - 1)
                &&& final(self).buttons == flags & 0x07
                &&& final(self).spec_max_x() == old(self).spec_max_x() && final(self).spec_max_y()
                    == old(self).spec_max_y()
            },
    {
        if self.packet_idx == 0 && (byte & 0x08) == 0 {
            // out of sync: wait for a valid first byte
            return false;
        }

        self.packet.set(self.packet_idx as usize, byte);
        self.packet_idx = self.packet_idx + 1;

        if self.packet_idx >= 3 {
            self.packet_idx = 0;
            self.process_packet();
            return true;
        }

        false
    }

    /// Commit a complete 3-byte packet into cursor and button state.
    fn process_packet(&mut self)
        requires
            old(self).wf(),
        ensures
            final(self).wf(),
            ({
                let flags = old(self).spec_packet()[0];
                let dx = spec_delta(flags, old(self).spec_packet()[1], 0x10, 0x40);
                let dy = spec_delta(flags, old(self).spec_packet()[2], 0x20, 0x80);
                &&& final(self).x == spec_clamp(old(self).x + dx, 0, old(self).spec_max_x() - 1)
                &&& final(self).y == spec_clamp(old(self).y - dy, 0, old(self).spec_max_y() - 1)
                &&& final(self).buttons == flags & 0x07
                &&& final(self).spec_packet() == old(self).spec_packet()
                &&& final(self).spec_packet_idx() == old(self).spec_packet_idx()
                &&& final(self).spec_max_x() == old(self).spec_max_x()
                &&& final(self).spec_max_y() == old(self).spec_max_y()
            }),
    {
        let flags = self.packet[0];
        let mut dx: i64 = self.packet[1] as i64;
        let mut dy: i64 = self.packet[2] as i64;

        if flags & 0x10 != 0 {
            dx = dx - 256;
        }
        if flags & 0x20 != 0 {
            dy = dy - 256;
        }
        if flags & 0x40 != 0 {
            dx = 0;
        }
        if flags & 0x80 != 0 {
            dy = 0;
        }

        let nx = clamp_i64((self.x as i64) + dx, 0, (self.max_x as i64) - 1);
        let ny = clamp_i64((self.y as i64) - dy, 0, (self.max_y as i64) - 1);
        self.x = nx as i32;
        self.y = ny as i32;

        self.buttons = flags & 0x07;
    }

    /// Check if left button is pressed
    pub fn left_button(&self) -> (r: bool)
        ensures
            r == (self.buttons & 0x01 != 0),
    {
        self.buttons & 0x01 != 0
    }

    /// Check if right button is pressed
    pub fn right_button(&self) -> (r: bool)
        ensures
            r == (self.buttons & 0x02 != 0),
    {
        self.buttons & 0x02 != 0
    }

    /// Check if middle button is pressed
    pub fn middle_button(&self) -> (r: bool)
        ensures
            r == (self.buttons & 0x04 != 0),
    {
        self.buttons & 0x04 != 0
    }

    /// Get current position.
    pub fn get_position(&self) -> (r: (i32, i32))
        ensures
            r.0 == self.x && r.1 == self.y,
    {
        (self.x, self.y)
    }

    /// Get button state.
    pub fn get_buttons(&self) -> (r: u8)
        ensures
            r == self.buttons,
    {
        self.buttons
    }
}

/// Clamp a 64-bit value into `[lo, hi]`, `lo <= hi`.
pub fn clamp_i64(v: i64, lo: i64, hi: i64) -> (r: i64)
    requires
        lo <= hi,
    ensures
        r == spec_clamp(v as int, lo as int, hi as int),
        lo <= r <= hi,
{
    if v < lo {
        lo
    } else if v > hi {
        hi
    } else {
        v
    }
}

} // verus!
