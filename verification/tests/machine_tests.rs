//! Scheduler, timer, heap, descriptor and controller behaviour on
//! concrete values.

use rustacean_kernel::ati_rage::{AtiRage, DisplayMode};
use rustacean_kernel::framebuffer::Framebuffer;
use rustacean_kernel::gdt::{build_gdt, GdtEntry};
use rustacean_kernel::gui::{Color, Rect};
use rustacean_kernel::heap::{SimpleBumpAllocator, HEAP_START};
use rustacean_kernel::idt::{dispatch_interrupt, IdtEntry, IrqAction};
use rustacean_kernel::pit::{divisor_for, Pit};
use rustacean_kernel::sched::{Priority, Scheduler, TaskState};
use rustacean_kernel::vga::{TextColor, Writer, TEXT_WIDTH};

#[test]
fn scheduler_picks_highest_priority_first() {
    let mut s = Scheduler::new();
    let lo = s.spawn("lo", Priority::Low);
    let hi = s.spawn("hi", Priority::High);
    let mid = s.spawn("mid", Priority::Normal);
    s.enqueue(lo);
    s.enqueue(hi);
    s.enqueue(mid);
    assert_eq!(s.ready_count(), 3);
    assert_eq!(s.pick_next(), Some(hi));
    assert_eq!(s.pick_next(), Some(mid));
    assert_eq!(s.pick_next(), Some(lo));
    // all queues empty: the idle task is the fallback
    assert_eq!(s.pick_next(), None);
    let idle = s.spawn("idle", Priority::Idle);
    s.set_idle(idle);
    assert_eq!(s.pick_next(), Some(idle));
}

#[test]
fn scheduler_fifo_within_a_level_and_tick_accounting() {
    let mut s = Scheduler::new();
    let a = s.spawn("a", Priority::Normal);
    let b = s.spawn("b", Priority::Normal);
    s.enqueue(a);
    s.enqueue(b);
    assert_eq!(s.pick_next(), Some(a));
    assert_eq!(s.pick_next(), Some(b));

    let c = s.spawn("c", Priority::Normal);
    s.set_current(Some(c));
    // a fresh task has ten ticks of slice
    for _ in 0..9 {
        assert!(!s.timer_tick());
    }
    assert!(s.timer_tick());
    assert_eq!(s.tasks[c].cpu_time, 10);
    assert_eq!(s.tasks[c].time_slice, 0);
    assert!(matches!(s.tasks[c].state, TaskState::Ready));
    s.record_context_switch();
    assert_eq!(s.context_switches(), 1);
}

#[test]
fn pit_divisor_and_uptime() {
    assert_eq!(divisor_for(100), 11931);
    assert_eq!(divisor_for(1000), 1193);
    let mut pit = Pit::new();
    assert_eq!(pit.hz, 100);
    for _ in 0..250 {
        pit.tick();
    }
    assert_eq!(pit.ticks(), 250);
    assert_eq!(pit.uptime_secs(), 2);
    assert_eq!(pit.uptime_ms(), 2500);
    assert_eq!(pit.set_frequency(1000), 1193);
}

#[test]
fn heap_bumps_and_never_frees() {
    let mut h = SimpleBumpAllocator::new();
    let a = h.allocate(100, 8).unwrap();
    assert_eq!(a, HEAP_START);
    let b = h.allocate(16, 16).unwrap();
    assert!(b >= a + 100);
    assert_eq!(b % 16, 0);
    h.deallocate(a);
    let stats = h.stats();
    assert_eq!(stats.used, (b + 16) - HEAP_START);
    // exhaustion is refused
    assert!(h.allocate(0x0040_0000, 1).is_none());
}

#[test]
fn gdt_is_the_flat_model() {
    let gdt = build_gdt();
    assert_eq!(gdt.len(), 6);
    assert_eq!(gdt[0], GdtEntry::null());
    let code = gdt[1];
    assert_eq!(code.limit_low, 0xFFFF);
    assert_eq!(code.access, 0x9A);
    assert_eq!(code.granularity, 0xCF);
    assert_eq!(gdt[2].access, 0x92);
    assert_eq!(gdt[3].access, 0xFA);
    assert_eq!(gdt[4].access, 0xF2);
}

#[test]
fn idt_gates_and_dispatch() {
    let g = IdtEntry::interrupt_gate(0x00123456, 0x08, 0);
    assert_eq!(g.offset_low, 0x3456);
    assert_eq!(g.offset_high, 0x0012);
    assert_eq!(g.type_attr, 0x8E);
    let t = IdtEntry::trap_gate(0x00123456, 0x08, 3);
    assert_eq!(t.type_attr, 0xEF);
    assert_eq!(dispatch_interrupt(32), IrqAction::TimerTick);
    assert_eq!(dispatch_interrupt(33), IrqAction::KeyboardByte);
    assert_eq!(dispatch_interrupt(44), IrqAction::MouseByte);
    assert_eq!(dispatch_interrupt(40), IrqAction::AcknowledgeOnly);
    assert_eq!(dispatch_interrupt(14), IrqAction::PageFault);
    assert_eq!(dispatch_interrupt(13), IrqAction::FatalException);
    assert_eq!(dispatch_interrupt(99), IrqAction::Ignore);
}

#[test]
fn controller_accepts_good_bars_and_plans_a_mode() {
    let mut gpu = AtiRage::new();
    // an I/O-space BAR is rejected
    assert!(gpu.init(0xE0000001, 0xFE000000, 0x12345678).is_err());
    assert!(!gpu.is_initialized());
    // a zero chip id means dead MMIO
    assert!(gpu.init(0xE0000000, 0xFE000000, 0).is_err());
    // good values bring it up
    assert!(gpu.init(0xE0000000, 0xFE000000, 0x12345678).is_ok());
    assert!(gpu.is_initialized());
    assert_eq!(gpu.framebuffer_addr(), 0xE0000000);
    assert_eq!(gpu.mmio_base(), 0xFE000000);

    let mode = DisplayMode::mode_800x600_60();
    let regs = gpu.set_mode(&mode, 32).unwrap();
    // h_total 1056/8-1 = 131, h_disp 800/8-1 = 99
    assert_eq!(regs.h_total_disp, 131 | (99 << 16));
    assert_eq!(regs.crtc_pitch, 100);
    assert_eq!(regs.ppll_ref_div, 12);
    assert_eq!(gpu.width(), 800);
    assert_eq!(gpu.height(), 600);
    assert_eq!(gpu.bpp(), 32);
    assert_eq!(gpu.pitch(), 3200);
    // an unsupported depth is refused
    assert!(gpu.set_mode(&mode, 12).is_err());

    // 2D fill packs its registers
    let op = gpu.fill_rect(10, 20, 30, 40, 0xFF00FF).unwrap();
    assert_eq!(op.dst_y_x, (10 << 16) | 20);
    assert_eq!(op.dst_height_width, (30 << 16) | 40);
    // an overlapping forward copy runs backwards
    let cp = gpu.copy_rect(0, 0, 5, 5, 10, 10).unwrap();
    assert_eq!(cp.direction, 0);
    let cp2 = gpu.copy_rect(5, 5, 0, 0, 10, 10).unwrap();
    assert_eq!(cp2.direction, 3);

    gpu.enable_hw_cursor();
    let pos = gpu.set_cursor_pos(-3, 7).unwrap();
    assert_eq!(pos.horz_vert_off, 3 << 16);
    assert_eq!(pos.horz_vert_posn, 7);
}

#[test]
fn framebuffer_pixels_round_trip() {
    let mut fb = Framebuffer::new(16, 16, 4, 64);
    let c = Color { r: 10, g: 20, b: 30 };
    fb.set_pixel(3, 5, c);
    assert_eq!(fb.get_pixel(3, 5), Some(c));
    assert_eq!(fb.get_pixel(16, 0), None);
    fb.fill_rect(0, 0, 16, 16, Color { r: 1, g: 2, b: 3 });
    assert_eq!(fb.get_pixel(3, 5), Some(Color { r: 1, g: 2, b: 3 }));
    assert_eq!(fb.get_pixel(15, 15), Some(Color { r: 1, g: 2, b: 3 }));

    // 16 bpp encodes RGB565 little-endian
    let mut fb16 = Framebuffer::new(4, 4, 2, 8);
    fb16.set_pixel(0, 0, Color { r: 255, g: 255, b: 255 });
    let got = fb16.get_pixel(0, 0).unwrap();
    assert_eq!(got, Color { r: 0xF8, g: 0xFC, b: 0xF8 });

    // copying between equal buffers reproduces the bytes
    let mut dst = Framebuffer::new(16, 16, 4, 64);
    dst.copy_from(&fb);
    assert_eq!(dst.data, fb.data);
}

#[test]
fn text_writer_advances_and_scrolls() {
    let mut w = Writer::text_mode();
    w.write_string("hi");
    assert_eq!(w.cells[0].glyph, b'h');
    assert_eq!(w.cells[1].glyph, b'i');
    assert_eq!(w.column, 2);
    w.write_byte(b'\n');
    assert_eq!(w.column, 0);
    assert_eq!(w.row, 1);
    w.write_byte(b'\t');
    assert_eq!(w.column, 8);
    w.set_color(TextColor::White, TextColor::Red);
    w.write_byte(b'x');
    assert_eq!(w.cells[TEXT_WIDTH + 8].glyph, b'x');
    assert_eq!(w.cells[TEXT_WIDTH + 8].attr, (4 << 4) | 15);
    // drive the cursor to the bottom and scroll: the 'x' row moves up
    for _ in 0..24 {
        w.write_byte(b'\n');
    }
    assert_eq!(w.row, 24);
    assert_eq!(w.cells[8].glyph, b'x');
    // the freed last row is blank
    assert_eq!(w.cells[24 * TEXT_WIDTH].glyph, b' ');
}

#[test]
fn schedule_requeues_and_picks_highest() {
    let mut s = Scheduler::new();
    let lo = s.spawn("lo", Priority::Low);
    let hi = s.spawn("hi", Priority::High);
    s.enqueue(lo);
    s.enqueue(hi);
    // nothing is current: the pick is the high task, now running
    let first = s.schedule();
    assert_eq!(first, Some(hi));
    assert!(matches!(s.tasks[hi].state, TaskState::Running));
    assert_eq!(s.context_switches(), 1);
    // the running high task goes back to the tail of its queue and, as
    // the only task there, immediately wins again
    let second = s.schedule();
    assert_eq!(second, Some(hi));
    assert!(matches!(s.tasks[hi].state, TaskState::Running));
    let mid = s.spawn("mid", Priority::Normal);
    s.enqueue(mid);
    // a current task that is no longer running is dropped, and the next
    // level down wins over the low task
    s.tasks[hi].state = TaskState::Blocked;
    let third = s.schedule();
    assert_eq!(third, Some(mid));
    assert_eq!(s.context_switches(), 3);
    s.tasks[mid].state = TaskState::Blocked;
    assert_eq!(s.schedule(), Some(lo));
}

#[test]
fn schedule_falls_back_to_idle() {
    let mut s = Scheduler::new();
    let idle = s.spawn("idle", Priority::Idle);
    s.set_idle(idle);
    assert_eq!(s.schedule(), Some(idle));
    assert_eq!(s.current(), Some(idle));
    assert!(matches!(s.tasks[idle].state, TaskState::Running));
}

#[test]
fn framebuffer_outline_line_and_blit_paint_pixels() {
    let red = Color { r: 200, g: 0, b: 0 };
    let blue = Color { r: 0, g: 0, b: 200 };
    let mut fb = Framebuffer::new(16, 16, 4, 64);
    fb.draw_rect(2, 3, 5, 4, red);
    // the four edges hold the colour, the inside does not
    assert_eq!(fb.get_pixel(2, 3), Some(red));
    assert_eq!(fb.get_pixel(6, 3), Some(red));
    assert_eq!(fb.get_pixel(2, 6), Some(red));
    assert_eq!(fb.get_pixel(6, 6), Some(red));
    assert_eq!(fb.get_pixel(4, 3), Some(red));
    assert_eq!(fb.get_pixel(2, 5), Some(red));
    assert_eq!(fb.get_pixel(4, 5), Some(Color { r: 0, g: 0, b: 0 }));

    let mut fb2 = Framebuffer::new(16, 16, 4, 64);
    fb2.draw_line(1, 8, 9, 8, blue);
    // a horizontal line paints its whole row, endpoints included
    for x in 1..=9 {
        assert_eq!(fb2.get_pixel(x, 8), Some(blue));
    }
    assert_eq!(fb2.get_pixel(0, 8), Some(Color { r: 0, g: 0, b: 0 }));
    fb2.draw_line(12, 2, 12, 13, red);
    for y in 2..=13 {
        assert_eq!(fb2.get_pixel(12, y), Some(red));
    }

    let mut dst = Framebuffer::new(16, 16, 4, 64);
    dst.blit(&fb2, Rect { x: 11, y: 2, width: 3, height: 3 }, 0, 0);
    // the copied pixels equal the source rectangle's
    assert_eq!(dst.get_pixel(1, 0), Some(red));
    assert_eq!(dst.get_pixel(1, 2), Some(red));
    assert_eq!(dst.get_pixel(0, 0), Some(Color { r: 0, g: 0, b: 0 }));
}
