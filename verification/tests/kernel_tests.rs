//! Memory, input, boot and driver-chain behaviour on concrete values.

use rustacean_kernel::boot_info::{BootInfo, E820Entry, E820Map, E820Type, BOOT_MAGIC};
use rustacean_kernel::driver_init::{
    init_all_drivers, GpuProbe, GPU_TYPE_ATI_RAGE, GPU_TYPE_VESA, INPUT_TYPE_PS2_MOUSE,
    INPUT_TYPE_SYNAPTICS,
};
use rustacean_kernel::intrusive::{IntrusiveList, IntrusiveNode, IntrusiveQueue, IntrusiveStack};
use rustacean_kernel::keyboard::{KeyCode, KeyEvent, Keyboard};
use rustacean_kernel::mouse::Mouse;
use rustacean_kernel::pmm::{Pmm, PAGE_SIZE};
use rustacean_kernel::synaptics::SynapticsTouchpad;

fn pool(n: usize) -> Vec<IntrusiveNode> {
    let mut v = Vec::new();
    for _ in 0..n {
        v.push(IntrusiveNode::new());
    }
    v
}

#[test]
fn intrusive_list_push_pop_remove() {
    let mut nodes = pool(8);
    let mut list = IntrusiveList::new();
    assert!(list.is_empty());
    list.push_front(&mut nodes, 3);
    list.push_back(&mut nodes, 5);
    list.push_front(&mut nodes, 1);
    // order is 1, 3, 5
    assert_eq!(list.len(), 3);
    assert_eq!(list.front(), Some(1));
    assert_eq!(list.back(), Some(5));
    list.remove(&mut nodes, 3);
    assert_eq!(list.len(), 2);
    assert!(!nodes[3].is_linked());
    assert_eq!(list.pop_front(&mut nodes), Some(1));
    assert_eq!(list.pop_back(&mut nodes), Some(5));
    assert_eq!(list.pop_front(&mut nodes), None);
    assert!(list.is_empty());
}

#[test]
fn intrusive_stack_is_lifo_and_queue_is_fifo() {
    let mut nodes = pool(8);
    let mut stack = IntrusiveStack::new();
    stack.push(&mut nodes, 2);
    stack.push(&mut nodes, 4);
    assert_eq!(stack.len(), 2);
    assert_eq!(stack.pop(&mut nodes), Some(4));
    assert_eq!(stack.pop(&mut nodes), Some(2));
    assert_eq!(stack.pop(&mut nodes), None);

    let mut q = IntrusiveQueue::new();
    q.enqueue(&mut nodes, 2);
    q.enqueue(&mut nodes, 4);
    assert_eq!(q.peek(), Some(2));
    assert_eq!(q.dequeue(&mut nodes), Some(2));
    assert_eq!(q.dequeue(&mut nodes), Some(4));
    assert!(q.is_empty());
}

fn one_region_map() -> E820Map {
    let entries = vec![E820Entry {
        base: 0x100000,
        length: 0x10000000 - 0x100000,
        region_type: 1,
        acpi_attrs: 0,
    }];
    E820Map::from_entries(entries)
}

#[test]
fn pmm_alloc_is_aligned_and_free_is_lifo() {
    let mut pmm = Pmm::init(&one_region_map());
    let start_free = pmm.free_page_count();
    assert!(start_free > 0);
    let a = pmm.alloc_page().unwrap();
    assert_eq!(a % PAGE_SIZE, 0);
    assert!(a >= 512 * PAGE_SIZE);
    assert_eq!(pmm.free_page_count(), start_free - 1);
    pmm.free_page(a);
    // LIFO: the page just freed comes back first
    let b = pmm.alloc_page().unwrap();
    assert_eq!(b, a);
    // double free is a silent no-op
    pmm.free_page(a);
    let count = pmm.free_page_count();
    pmm.free_page(a);
    assert_eq!(pmm.free_page_count(), count);
}

#[test]
fn pmm_churn_returns_to_start() {
    let mut pmm = Pmm::init(&one_region_map());
    let start_free = pmm.free_page_count();
    let mut seen = Vec::new();
    for _ in 0..100 {
        let a = pmm.alloc_page().unwrap();
        if !seen.contains(&a) {
            seen.push(a);
        }
        pmm.free_page(a);
    }
    // round-trips draw from a small set and restore the counter
    assert_eq!(seen.len(), 1);
    assert_eq!(pmm.free_page_count(), start_free);
}

#[test]
fn keyboard_extended_arrow_and_shift() {
    let mut kb = Keyboard::new();
    // 0xE0 prefix then the Up scancode: one press event
    assert!(kb.process_scancode(0xE0).is_none());
    let ev = kb.process_scancode(0x48);
    assert!(matches!(ev, Some(KeyEvent::Press(KeyCode::Up))));
    let key = kb.get_key().unwrap();
    assert!(matches!(key.keycode, KeyCode::Up));
    assert_eq!(key.ascii, None);
    assert!(kb.get_key().is_none());

    // shift down, 'a' pressed -> 'A', releases follow
    kb.process_scancode(0x2A);
    let ev = kb.process_scancode(0x1E);
    assert!(matches!(ev, Some(KeyEvent::Press(KeyCode::A))));
    let ev = kb.process_scancode(0x9E);
    assert!(matches!(ev, Some(KeyEvent::Release(KeyCode::A))));
    let ev = kb.process_scancode(0xAA);
    assert!(matches!(ev, Some(KeyEvent::Release(KeyCode::LeftShift))));
    // drain: the shift press and the 'A' press are buffered
    let first = kb.get_key().unwrap();
    assert!(matches!(first.keycode, KeyCode::LeftShift));
    let second = kb.get_key().unwrap();
    assert!(matches!(second.keycode, KeyCode::A));
    assert_eq!(second.ascii, Some('A'));
    assert!(kb.get_key().is_none());
}

#[test]
fn keyboard_caps_lock_toggles() {
    let mut kb = Keyboard::new();
    kb.process_scancode(0x3A);
    kb.process_scancode(0x1E);
    kb.get_key();
    let key = kb.get_key().unwrap();
    assert_eq!(key.ascii, Some('A'));
}

#[test]
fn mouse_sync_and_packet() {
    let mut m = Mouse::new();
    m.set_bounds(800, 600);
    assert_eq!(m.get_position(), (400, 300));
    // a byte without bit 3 resets sync and produces no event
    assert!(!m.process_byte(0x03));
    assert_eq!(m.get_position(), (400, 300));
    // a valid packet with both sign bits clear: dx = 5, dy = 5 (inverted)
    assert!(!m.process_byte(0x09));
    assert!(!m.process_byte(0x05));
    assert!(m.process_byte(0x05));
    assert_eq!(m.get_position(), (405, 295));
    assert_eq!(m.get_buttons(), 1);
    assert!(m.left_button());
    assert!(!m.right_button());
}

#[test]
fn touchpad_packet_applies_sensitivity() {
    let mut t = SynapticsTouchpad::new();
    t.set_screen_size(800, 600);
    assert_eq!(t.get_position(), (400, 300));
    // dx = 5, dy = -5 (sign bit 5 set): with sensitivity 2 the cursor
    // moves +10 in both axes (the y axis is inverted)
    assert!(!t.process_byte(0x29));
    assert!(!t.process_byte(0x05));
    assert!(t.process_byte(0xFB));
    assert_eq!(t.get_position(), (410, 310));
    assert_eq!(t.get_buttons(), 1);
}

#[test]
fn touchpad_sync_recovery() {
    let mut t = SynapticsTouchpad::new();
    t.set_screen_size(800, 600);
    // the first three bytes lack bit 3 and are dropped
    assert!(!t.process_byte(0x03));
    assert!(!t.process_byte(0x00));
    assert!(!t.process_byte(0x00));
    assert_eq!(t.get_position(), (400, 300));
    // then a valid packet commits: flags 0x08 carry no sign bits, so the
    // raw y byte is a large positive delta and the cursor pins to the top
    assert!(!t.process_byte(0x08));
    assert!(!t.process_byte(0x05));
    assert!(t.process_byte(0xFB));
    assert_eq!(t.get_buttons(), 0);
    assert_eq!(t.get_position(), (410, 0));
}

#[test]
fn boot_info_decodes_and_vesa_fallback_runs() {
    // the hand-off block: magic RUST, e820 at 0x9000, vesa on, the
    // framebuffer parameters
    let mut block = Vec::new();
    for v in [0x54535552u32, 0x9000, 1, 0xFD000000u32, 800, 600, 32, 3200] {
        block.extend_from_slice(&v.to_le_bytes());
    }
    let info = BootInfo::from_bytes(&block);
    assert_eq!(info.magic, BOOT_MAGIC);
    assert!(info.verify_magic());
    assert!(info.vesa_enabled);
    assert_eq!(info.framebuffer_addr, 0xFD000000);
    assert_eq!(info.screen_width, 800);
    assert_eq!(info.pitch, 3200);

    // one usable E820 region [0x100000, 0x10000000)
    let mut e820 = Vec::new();
    e820.extend_from_slice(&1u16.to_le_bytes());
    e820.extend_from_slice(&[0u8; 2]);
    e820.extend_from_slice(&0x100000u64.to_le_bytes());
    e820.extend_from_slice(&(0x10000000u64 - 0x100000).to_le_bytes());
    e820.extend_from_slice(&1u32.to_le_bytes());
    e820.extend_from_slice(&0u32.to_le_bytes());
    let map = E820Map::from_bytes(&e820);
    assert_eq!(map.len(), 1);
    let entry = map.get(0).unwrap();
    assert_eq!(entry.base, 0x100000);
    assert!(entry.is_usable());
    assert_eq!(entry.memory_type(), E820Type::Usable);
    assert_eq!(entry.end(), 0x10000000);
    assert_eq!(map.total_usable_memory(), 0x10000000 - 0x100000);
    assert_eq!(map.total_memory(), 0x10000000);

    // the driver chain: no native controller, touchpad silent -> VESA
    // keys and the PS/2 mouse, one failure for the probe, one for the pad
    let r = init_all_drivers(
        info.framebuffer_addr,
        info.screen_width,
        info.screen_height,
        info.bits_per_pixel,
        info.pitch,
        None,
        None,
    );
    assert_eq!(r.gpu_type, GPU_TYPE_VESA);
    assert_eq!(r.fb_addr, 0xFD000000);
    assert_eq!(r.width, 800);
    assert_eq!(r.height, 600);
    assert_eq!(r.bpp, 32);
    assert_eq!(r.pitch, 3200);
    assert!(!r.hw_cursor);
    assert_eq!(r.input_type, INPUT_TYPE_PS2_MOUSE);
    assert_eq!(r.failure_count, 2);
    assert_eq!(r.failures[0], "ati_rage_probe");
    assert_eq!(r.failures[1], "synaptics_init");
    assert_eq!(r.gpu_type_str(), "VESA");
    assert_eq!(r.input_type_str(), "PS/2 Mouse");
    assert!(!r.is_ati_rage());
    assert!(!r.is_synaptics());
}

#[test]
fn native_probe_wins_when_present() {
    let g = GpuProbe { fb_addr: 0xE0000000, width: 800, height: 600, bpp: 32, pitch: 3200, hw_cursor: true };
    let r = init_all_drivers(0xFD000000, 1024, 768, 32, 4096, Some(g), Some(true));
    assert_eq!(r.gpu_type, GPU_TYPE_ATI_RAGE);
    assert_eq!(r.fb_addr, 0xE0000000);
    assert_eq!(r.width, 800);
    assert!(r.hw_cursor);
    assert_eq!(r.input_type, INPUT_TYPE_SYNAPTICS);
    assert_eq!(r.failure_count, 0);
    assert!(r.is_ati_rage());
    assert!(r.is_synaptics());
}
