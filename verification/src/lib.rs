//! A single-CPU, 32-bit protected-mode kernel core for legacy PC hardware,
//! organised around a uniform EventChain pipeline: an ordered sequence of
//! events wrapped by middleware, executed under a configurable fault-tolerance
//! mode.
//!
//! The library holds the policy-bearing logic of the kernel: the EventChain
//! core and the three pipelines it drives (driver bring-up, window-manager
//! lifecycle, system calls), the intrusive list and the page-frame pool built
//! on it, the priority run-queue scheduler, the double-buffered desktop
//! compositor, and the input-byte state machines.  Hardware access (port I/O,
//! MMIO, the real framebuffer) stays outside; the library computes what to do
//! and what to write, and states it in contracts.

pub mod ati_rage;
pub mod boot_info;
pub mod chain;
pub mod context;
pub mod desktop;
pub mod driver_init;
pub mod event_result;
pub mod gdt;
pub mod heap;
pub mod idt;
pub mod pit;
pub mod middleware;
pub mod mouse;
pub mod pmm;
pub mod sched;
pub mod synaptics;
pub mod syscall;
pub mod theme;
pub mod vga;
pub mod window;
pub mod wm_events;
pub mod font;
pub mod framebuffer;
pub mod gui;
pub mod intrusive;
pub mod keyboard;

use vstd::prelude::*;

verus! {

} // verus!
