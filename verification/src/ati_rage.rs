//! Native display controller state machine (ATI Rage Mobility P): BAR
//! validation, liveness check, mode planning with CRTC timing and PLL
//! divisors, 2D operation encoding, and the hardware cursor.
//!
//! The controller is programmed over PCI configuration space and MMIO;
//! those reads and writes are the caller's I/O.  What is verified here is
//! the state machine they feed: which observed values are accepted, what
//! state each step leaves, and exactly which register values a step asks
//! the caller to write.

use vstd::prelude::*;

verus! {

/// ATI vendor ID
pub const ATI_VENDOR_ID: u16 = 0x1002;

/// Rage Mobility P device ID
pub const RAGE_MOBILITY_P_ID: u16 = 0x4C4D;

/// Minimum plausible MMIO base address
pub const MIN_MMIO_ADDR: u32 = 0x80000000;

/// Maximum plausible MMIO base address
pub const MAX_MMIO_ADDR: u32 = 0xFFF00000;

/// Standard display mode timing parameters.
#[derive(Clone, Copy, Debug, PartialEq, Eq, Structural)]
pub struct DisplayMode {
    pub width: u32,
    pub height: u32,
    pub refresh: u32,
    /// Pixel clock, in kHz
    pub pixel_clock: u32,
    pub h_total: u32,
    pub h_sync_start: u32,
    pub h_sync_end: u32,
    pub v_total: u32,
    pub v_sync_start: u32,
    pub v_sync_end: u32,
    /// true = negative polarity
    pub h_sync_polarity: bool,
    pub v_sync_polarity: bool,
}

impl DisplayMode {
    /// A mode whose timings the planner can program.
    pub open spec fn wf(&self) -> bool {
        &&& 8 <= self.width <= 4096
        &&& 1 <= self.height <= 4096
        &&& self.width <= self.h_total <= 8192
        &&& self.h_sync_start <= self.h_sync_end <= 8192
        &&& 1 <= self.v_total <= 8192
        &&& self.v_sync_start <= self.v_sync_end <= 8192
        &&& 1 <= self.pixel_clock <= 1000000
    }

    /// 800x600 at 60 Hz (VESA standard)
    pub fn mode_800x600_60() -> (r: DisplayMode)
        ensures
            r.wf(),
            r.width == 800 && r.height == 600 && r.refresh == 60,
            r.pixel_clock == 40000,
    {
        DisplayMode {
            width: 800,
            height: 600,
            refresh: 60,
            pixel_clock: 40000,
            h_total: 1056,
            h_sync_start: 840,
            h_sync_end: 968,
            v_total: 628,
            v_sync_start: 601,
            v_sync_end: 605,
            h_sync_polarity: false,
            v_sync_polarity: false,
        }
    }

    /// 1024x768 at 60 Hz (VESA standard)
    pub fn mode_1024x768_60() -> (r: DisplayMode)
        ensures
            r.wf(),
            r.width == 1024 && r.height == 768 && r.refresh == 60,
            r.pixel_clock == 65000,
    {
        DisplayMode {
            width: 1024,
            height: 768,
            refresh: 60,
            pixel_clock: 65000,
            h_total: 1344,
            h_sync_start: 1048,
            h_sync_end: 1184,
            v_total: 806,
            v_sync_start: 771,
            v_sync_end: 777,
            h_sync_polarity: true,
            v_sync_polarity: true,
        }
    }

    /// 640x480 at 60 Hz (VGA standard)
    pub fn mode_640x480_60() -> (r: DisplayMode)
        ensures
            r.wf(),
            r.width == 640 && r.height == 480 && r.refresh == 60,
            r.pixel_clock == 25175,
    {
        DisplayMode {
            width: 640,
            height: 480,
            refresh: 60,
            pixel_clock: 25175,
            h_total: 800,
            h_sync_start: 656,
            h_sync_end: 752,
            v_total: 525,
            v_sync_start: 490,
            v_sync_end: 492,
            h_sync_polarity: true,
            v_sync_polarity: true,
        }
    }
}

/// The CRTC and PLL register values one mode set asks the caller to
/// program.
#[derive(Clone, Copy, Debug, PartialEq, Eq, Structural)]
pub struct ModeRegs {
    pub h_total_disp: u32,
    pub h_sync_strt_wid: u32,
    pub v_total_disp: u32,
    pub v_sync_strt_wid: u32,
    /// CRTC pitch, in units of 8 pixels
    pub crtc_pitch: u32,
    /// PLL reference divider
    pub ppll_ref_div: u32,
    /// PLL feedback and post divider word
    pub ppll_div_0: u32,
    /// Pixel-depth code for the CRTC control word
    pub pix_width: u32,
}

/// A 2D engine rectangle fill: the register words of one operation.
#[derive(Clone, Copy, Debug, PartialEq, Eq, Structural)]
pub struct FillRectOp {
    pub dst_y_x: u32,
    pub dst_height_width: u32,
    pub color: u32,
}

/// A 2D engine blit: direction-adjusted coordinates.
#[derive(Clone, Copy, Debug, PartialEq, Eq, Structural)]
pub struct CopyRectOp {
    /// Direction control: 0 bottom-up right-to-left, 3 top-down
    pub direction: u32,
    pub src_y_x: u32,
    pub dst_y_x: u32,
    pub dst_height_width: u32,
}

/// A hardware cursor placement: hot-spot offset and position words.
#[derive(Clone, Copy, Debug, PartialEq, Eq, Structural)]
pub struct CursorPos {
    pub horz_vert_off: u32,
    pub horz_vert_posn: u32,
}

/// GPU state: addresses from the BARs, the current mode, and the phase
/// flags of the bring-up state machine.
pub struct AtiRage {
    /// MMIO base address (from BAR2)
    pub mmio_base: u32,
    /// Framebuffer base address (from BAR0)
    pub fb_base: u32,
    /// Framebuffer size in bytes
    pub fb_size: u32,
    /// Current display width
    pub width: u32,
    /// Current display height
    pub height: u32,
    /// Bits per pixel
    pub bpp: u32,
    /// Bytes per scanline
    pub pitch: u32,
    /// Has `init` accepted the controller?
    pub initialized: bool,
    /// Hardware cursor enabled?
    pub hw_cursor_enabled: bool,
    /// Did the chip answer its liveness check?
    pub mmio_verified: bool,
    /// In the low-power phase?
    pub low_power: bool,
}

impl AtiRage {
    /// A controller in the unprobed state.
    pub fn new() -> (r: AtiRage)
        ensures
            !r.initialized && !r.mmio_verified && !r.hw_cursor_enabled && !r.low_power,
            r.mmio_base == 0 && r.fb_base == 0 && r.fb_size == 0,
            r.width == 0 && r.height == 0 && r.bpp == 0 && r.pitch == 0,
    {
        AtiRage {
            mmio_base: 0,
            fb_base: 0,
            fb_size: 0,
            width: 0,
            height: 0,
            bpp: 0,
            pitch: 0,
            initialized: false,
            hw_cursor_enabled: false,
            mmio_verified: false,
            low_power: false,
        }
    }

    /// Whether a chip-id read proves the MMIO window live: anything but
    /// the floating-bus values counts.
    pub fn verify_mmio(&self, chip_id: u32) -> (r: bool)
        ensures
            r == (chip_id != 0 && chip_id != 0xFFFFFFFF),
    {
        chip_id != 0 && chip_id != 0xFFFFFFFF
    }

    /// The VRAM size to trust from the memory-size register, falling back
    /// to the known 8 MiB when the register is implausible.
    pub fn detect_vram_size(&self, memsize: u32) -> (r: u32)
        ensures
            r == (if 0 < memsize <= 0x2000000 {
                memsize
            } else {
                0x800000u32
            }),
    {
        if memsize > 0 && memsize <= 32 * 1024 * 1024 {
            memsize
        } else {
            8 * 1024 * 1024
        }
    }

    /// The framebuffer-location word the memory controller is programmed
    /// with.
    pub fn init_memory_controller(&self) -> (r: u32)
        requires
            self.fb_size >= 1,
        ensures
            r == ((self.fb_base >> 16) | ((self.fb_base + self.fb_size - 1) as u32
                & 0xFFFF0000u32)),
    {
        (self.fb_base >> 16) | (((self.fb_base as u64 + self.fb_size as u64 - 1) as u32)
            & 0xFFFF0000)
    }

    /// Accept or reject the controller from its BARs and the chip-id
    /// liveness read.  On acceptance the addresses are latched and the
    /// machine is initialized and verified; any rejection names its
    /// reason and leaves the machine uninitialized.
    pub fn init(&mut self, bar0: u32, bar2: u32, chip_id: u32) -> (r: Result<(), &'static str>)
        requires
            !old(self).initialized,
            !old(self).mmio_verified,
        ensures
            final(self).initialized == (r is Ok),
            final(self).mmio_verified == (r is Ok),
            r is Ok <==> {
                &&& bar0 & 0x01 == 0 && bar2 & 0x01 == 0
                &&& (bar0 & 0xFFFFFFF0) != 0 && (bar2 & 0xFFFFFFF0) != 0
                &&& MIN_MMIO_ADDR <= (bar2 & 0xFFFFFFF0) <= MAX_MMIO_ADDR
                &&& (bar0 & 0xFFFFFFF0) >= 0x00100000
                &&& chip_id != 0 && chip_id != 0xFFFFFFFF
            },
            r is Ok ==> {
                &&& final(self).fb_base == bar0 & 0xFFFFFFF0
                &&& final(self).mmio_base == bar2 & 0xFFFFFFF0
            },
    {
        if (bar0 & 0x01) != 0 {
            return Err("BAR0 is I/O space, expected memory");
        }
        if (bar2 & 0x01) != 0 {
            return Err("BAR2 is I/O space, expected memory");
        }

        self.fb_base = bar0 & 0xFFFFFFF0;
        self.mmio_base = bar2 & 0xFFFFFFF0;

        if self.fb_base == 0 {
            return Err("Framebuffer BAR is zero");
        }
        if self.mmio_base == 0 {
            return Err("MMIO BAR is zero");
        }
        if self.mmio_base < MIN_MMIO_ADDR || self.mmio_base > MAX_MMIO_ADDR {
            return Err("MMIO address out of expected range");
        }
        if self.fb_base < 0x00100000 {
            return Err("Framebuffer address suspiciously low");
        }
        if !self.verify_mmio(chip_id) {
            return Err("MMIO verification failed - hardware not responding");
        }
        self.mmio_verified = true;
        self.fb_size = self.detect_vram_size(0);
        self.initialized = true;
        Ok(())
    }

    /// Plan a mode set: the CRTC timing words, the pitch, the PLL
    /// divisors and the depth code, exactly as the controller wants them;
    /// the machine latches the new geometry.  An unsupported depth is
    /// rejected, as is a mode set before initialization.
    pub fn set_mode(&mut self, mode: &DisplayMode, bpp: u32) -> (r: Result<ModeRegs, &'static str>)
        requires
            mode.wf(),
        ensures
            r is Ok <==> (old(self).initialized && old(self).mmio_verified && (bpp == 8 || bpp
                == 15 || bpp == 16 || bpp == 24 || bpp == 32)),
            !(old(self).initialized && old(self).mmio_verified) ==> r is Err && *final(self)
                == *old(self),
            r matches Ok(regs) ==> {
                let h_total = (mode.h_total / 8 - 1) as u32;
                let h_disp = (mode.width / 8 - 1) as u32;
                let h_sync_start = mode.h_sync_start / 8;
                let h_sync_width = ((mode.h_sync_end - mode.h_sync_start) / 8) as u32;
                let v_total = (mode.v_total - 1) as u32;
                let v_disp = (mode.height - 1) as u32;
                let v_sync_width = (mode.v_sync_end - mode.v_sync_start) as u32;
                let bytes_per_pixel = bpp / 8;
                let pitch_bytes = ((mode.width * bytes_per_pixel + 63) / 64 * 64) as u32;
                &&& regs.h_total_disp == ((h_total & 0x1FF) | ((h_disp & 0x1FF) << 16))
                &&& regs.h_sync_strt_wid == ((h_sync_start & 0x7FF) | ((h_sync_width & 0x1F)
                    << 16) | (if mode.h_sync_polarity {
                    1u32 << 23
                } else {
                    0u32
                }))
                &&& regs.v_total_disp == ((v_total & 0xFFF) | ((v_disp & 0xFFF) << 16))
                &&& regs.v_sync_strt_wid == ((mode.v_sync_start & 0xFFF) | ((v_sync_width & 0x1F)
                    << 16) | (if mode.v_sync_polarity {
                    1u32 << 23
                } else {
                    0u32
                }))
                &&& regs.ppll_ref_div == 12
                &&& regs.ppll_div_0 == ((mode.pixel_clock * 24 / 14318) as u32 | (2u32 << 16))
                &&& final(self).width == mode.width
                &&& final(self).height == mode.height
                &&& final(self).bpp == bpp
                &&& final(self).pitch == pitch_bytes
                &&& final(self).initialized && final(self).mmio_verified
            },
    {
        if !self.initialized {
            return Err("GPU not initialized");
        }
        if !self.mmio_verified {
            return Err("MMIO not verified");
        }

        let pix_width: u32 = if bpp == 8 {
            2u32 << 8
        } else if bpp == 15 {
            3u32 << 8
        } else if bpp == 16 {
            4u32 << 8
        } else if bpp == 24 {
            5u32 << 8
        } else if bpp == 32 {
            6u32 << 8
        } else {
            return Err("Unsupported bit depth");
        };

        let h_total = mode.h_total / 8 - 1;
        let h_disp = mode.width / 8 - 1;
        let h_sync_start = mode.h_sync_start / 8;
        let h_sync_width = (mode.h_sync_end - mode.h_sync_start) / 8;

        let v_total = mode.v_total - 1;
        let v_disp = mode.height - 1;
        let v_sync_width = mode.v_sync_end - mode.v_sync_start;

        let h_sync_pol: u32 = if mode.h_sync_polarity {
            1u32 << 23
        } else {
            0
        };
        let v_sync_pol: u32 = if mode.v_sync_polarity {
            1u32 << 23
        } else {
            0
        };

        let bytes_per_pixel = bpp / 8;
        proof {
            assert(mode.width * bytes_per_pixel <= 16384) by (nonlinear_arith)
                requires
                    mode.width <= 4096,
                    bytes_per_pixel <= 4,
            ;
        }
        let pitch_bytes = (mode.width * bytes_per_pixel + 63) / 64 * 64;
        let pitch_pixels = pitch_bytes / bytes_per_pixel;

        // reference clock 14.318 MHz; ref_div 12, post_div 2
        let feedback_div = mode.pixel_clock * 24 / 14318;

        let regs = ModeRegs {
            h_total_disp: (h_total & 0x1FF) | ((h_disp & 0x1FF) << 16),
            h_sync_strt_wid: (h_sync_start & 0x7FF) | ((h_sync_width & 0x1F) << 16) | h_sync_pol,
            v_total_disp: (v_total & 0xFFF) | ((v_disp & 0xFFF) << 16),
            v_sync_strt_wid: (mode.v_sync_start & 0xFFF) | ((v_sync_width & 0x1F) << 16)
                | v_sync_pol,
            crtc_pitch: pitch_pixels / 8,
            ppll_ref_div: 12,
            ppll_div_0: feedback_div | (2u32 << 16),
            pix_width,
        };

        self.width = mode.width;
        self.height = mode.height;
        self.bpp = bpp;
        self.pitch = pitch_bytes;

        Ok(regs)
    }

    /// Encode a solid fill for the 2D engine, if the machine may touch
    /// it.
    pub fn fill_rect(&self, x: u32, y: u32, width: u32, height: u32, color: u32) -> (r: Option<
        FillRectOp,
    >)
        ensures
            r is Some <==> (self.initialized && self.mmio_verified),
            r matches Some(op) ==> {
                &&& op.dst_y_x == ((x << 16) | y)
                &&& op.dst_height_width == ((width << 16) | height)
                &&& op.color == color
            },
    {
        if !self.initialized || !self.mmio_verified {
            return None;
        }
        Some(FillRectOp { dst_y_x: (x << 16) | y, dst_height_width: (width << 16) | height, color })
    }

    /// Encode a blit for the 2D engine: overlapping copies toward higher
    /// addresses run bottom-up from the far corners.
    pub fn copy_rect(&self, src_x: u32, src_y: u32, dst_x: u32, dst_y: u32, width: u32,
        height: u32) -> (r: Option<CopyRectOp>)
        requires
            width >= 1,
            height >= 1,
            src_x + width <= 0xFFFF,
            src_y + height <= 0xFFFF,
            dst_x + width <= 0xFFFF,
            dst_y + height <= 0xFFFF,
        ensures
            r is Some <==> (self.initialized && self.mmio_verified),
            r matches Some(op) ==> {
                let backwards = dst_y > src_y || (dst_y == src_y && dst_x > src_x);
                &&& op.direction == (if backwards {
                    0u32
                } else {
                    3u32
                })
                &&& (backwards ==> op.src_y_x == ((((src_x + width - 1) as u32) << 16) | ((src_y
                    + height - 1) as u32)) && op.dst_y_x == ((((dst_x + width - 1) as u32) << 16)
                    | ((dst_y + height - 1) as u32)))
                &&& (!backwards ==> op.src_y_x == ((src_x << 16) | src_y) && op.dst_y_x == ((dst_x
                    << 16) | dst_y))
                &&& op.dst_height_width == ((width << 16) | height)
            },
    {
        if !self.initialized || !self.mmio_verified {
            return None;
        }
        let backwards = dst_y > src_y || (dst_y == src_y && dst_x > src_x);
        if backwards {
            Some(
                CopyRectOp {
                    direction: 0,
                    src_y_x: ((src_x + width - 1) << 16) | (src_y + height - 1),
                    dst_y_x: ((dst_x + width - 1) << 16) | (dst_y + height - 1),
                    dst_height_width: (width << 16) | height,
                },
            )
        } else {
            Some(
                CopyRectOp {
                    direction: 3,
                    src_y_x: (src_x << 16) | src_y,
                    dst_y_x: (dst_x << 16) | dst_y,
                    dst_height_width: (width << 16) | height,
                },
            )
        }
    }

    /// Enable the hardware cursor, if the machine may.
    pub fn enable_hw_cursor(&mut self)
        ensures
            old(self).initialized && old(self).mmio_verified ==> final(self).hw_cursor_enabled,
            !(old(self).initialized && old(self).mmio_verified) ==> *final(self) == *old(self),
            final(self).initialized == old(self).initialized,
            final(self).mmio_verified == old(self).mmio_verified,
            final(self).width == old(self).width && final(self).height == old(self).height,
    {
        if !self.initialized || !self.mmio_verified {
            return ;
        }
        self.hw_cursor_enabled = true;
    }

    /// Disable the hardware cursor.
    pub fn disable_hw_cursor(&mut self)
        ensures
            old(self).mmio_verified ==> !final(self).hw_cursor_enabled,
            !old(self).mmio_verified ==> *final(self) == *old(self),
            final(self).initialized == old(self).initialized,
    {
        if !self.mmio_verified {
            return ;
        }
        self.hw_cursor_enabled = false;
    }

    /// Place the hardware cursor: negative coordinates become a hot-spot
    /// offset with the position clamped to the edge.
    pub fn set_cursor_pos(&self, x: i32, y: i32) -> (r: Option<CursorPos>)
        requires
            -4096 <= x <= 4096,
            -4096 <= y <= 4096,
        ensures
            r is Some <==> (self.hw_cursor_enabled && self.mmio_verified),
            r matches Some(p) ==> {
                let hot_x: u32 = if x < 0 {
                    (-x) as u32
                } else {
                    0u32
                };
                let hot_y: u32 = if y < 0 {
                    (-y) as u32
                } else {
                    0u32
                };
                let pos_x: u32 = if x < 0 {
                    0u32
                } else {
                    x as u32
                };
                let pos_y: u32 = if y < 0 {
                    0u32
                } else {
                    y as u32
                };
                &&& p.horz_vert_off == ((hot_x << 16) | hot_y)
                &&& p.horz_vert_posn == ((pos_x << 16) | pos_y)
            },
    {
        if !self.hw_cursor_enabled || !self.mmio_verified {
            return None;
        }
        let hot_x: u32 = if x < 0 {
            (-x) as u32
        } else {
            0
        };
        let hot_y: u32 = if y < 0 {
            (-y) as u32
        } else {
            0
        };
        let pos_x: u32 = if x < 0 {
            0
        } else {
            x as u32
        };
        let pos_y: u32 = if y < 0 {
            0
        } else {
            y as u32
        };
        Some(CursorPos { horz_vert_off: (hot_x << 16) | hot_y, horz_vert_posn: (pos_x << 16) | pos_y })
    }

    /// Enter the low-power phase, if the machine may.
    pub fn enter_low_power(&mut self)
        ensures
            old(self).mmio_verified ==> final(self).low_power,
            !old(self).mmio_verified ==> *final(self) == *old(self),
            final(self).initialized == old(self).initialized,
    {
        if !self.mmio_verified {
            return ;
        }
        self.low_power = true;
    }

    /// Leave the low-power phase.
    pub fn exit_low_power(&mut self)
        ensures
            old(self).mmio_verified ==> !final(self).low_power,
            !old(self).mmio_verified ==> *final(self) == *old(self),
            final(self).initialized == old(self).initialized,
    {
        if !self.mmio_verified {
            return ;
        }
        self.low_power = false;
    }

    /// The framebuffer base address.
    pub fn framebuffer_addr(&self) -> (r: u32)
        ensures
            r == self.fb_base,
    {
        self.fb_base
    }

    /// The framebuffer size.
    pub fn framebuffer_size(&self) -> (r: u32)
        ensures
            r == self.fb_size,
    {
        self.fb_size
    }

    /// The current mode width.
    pub fn width(&self) -> (r: u32)
        ensures
            r == self.width,
    {
        self.width
    }

    /// The current mode height.
    pub fn height(&self) -> (r: u32)
        ensures
            r == self.height,
    {
        self.height
    }

    /// The current depth.
    pub fn bpp(&self) -> (r: u32)
        ensures
            r == self.bpp,
    {
        self.bpp
    }

    /// The current pitch.
    pub fn pitch(&self) -> (r: u32)
        ensures
            r == self.pitch,
    {
        self.pitch
    }

    /// Whether `init` accepted the controller.
    pub fn is_initialized(&self) -> (r: bool)
        ensures
            r == self.initialized,
    {
        self.initialized
    }

    /// The MMIO base address.
    pub fn mmio_base(&self) -> (r: u32)
        ensures
            r == self.mmio_base,
    {
        self.mmio_base
    }
}

} // verus!
