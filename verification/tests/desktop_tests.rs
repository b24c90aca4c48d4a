//! Desktop, window-manager and compositor behaviour on concrete values.

use rustacean_kernel::desktop::{Desktop, KeyRoute};
use rustacean_kernel::keyboard::KeyCode;
use rustacean_kernel::framebuffer::Framebuffer;
use rustacean_kernel::gui::MouseButton;
use rustacean_kernel::window::Window;
use rustacean_kernel::wm_events::WmEventDispatcher;

#[test]
fn create_window_returns_new_id_and_focus() {
    let mut d = Desktop::new(800, 600);
    let id = d.create_window("A", 50, 50, 450, 220);
    assert_eq!(id, Some(1));
    assert_eq!(d.focused_window(), Some(1));
    assert_eq!(d.window_count, 1);
    // exactly one window holds the focus flag
    let mut focused = 0;
    for w in d.windows.iter() {
        if let Some(w) = w {
            if w.flags.focused {
                focused += 1;
            }
        }
    }
    assert_eq!(focused, 1);
}

#[test]
fn create_window_rejects_bad_sizes() {
    let mut d = Desktop::new(800, 600);
    // too small in both axes
    assert_eq!(d.create_window("X", 0, 0, 80, 40), None);
    assert_eq!(d.window_count, 0);
    assert_eq!(d.focused_window(), None);
    // too large
    assert_eq!(d.create_window("X", 0, 0, 2400, 200), None);
    assert_eq!(d.window_count, 0);
    // boundary sizes pass
    assert_eq!(d.create_window("X", 0, 0, 100, 50), Some(1));
    assert_eq!(d.create_window("Y", 0, 0, 2000, 2000), Some(2));
}

#[test]
fn wm_dispatchers_validate() {
    assert!(WmEventDispatcher::dispatch_create(0, 0, 100, 50));
    assert!(!WmEventDispatcher::dispatch_create(0, 0, 99, 50));
    assert!(!WmEventDispatcher::dispatch_create(0, 0, 100, 2001));
    assert!(!WmEventDispatcher::dispatch_destroy(0));
    assert!(WmEventDispatcher::dispatch_destroy(3));
    assert!(WmEventDispatcher::dispatch_focus_change(None, Some(1)));
    assert!(WmEventDispatcher::dispatch_focus_change(Some(2), None));
    assert!(WmEventDispatcher::dispatch_z_order_change(1, 1));
    assert!(WmEventDispatcher::dispatch_z_order_change(1, 4));
    assert!(!WmEventDispatcher::dispatch_z_order_change(1, 0));
    assert!(!WmEventDispatcher::dispatch_z_order_change(1, 5));
    assert!(WmEventDispatcher::dispatch_move(1, 0, 0, 10, 10));
    assert!(WmEventDispatcher::dispatch_resize(1, 100, 50, 100, 50));
    assert!(!WmEventDispatcher::dispatch_resize(1, 100, 50, 99, 50));
}

#[test]
fn second_window_takes_focus_and_click_returns_it() {
    let mut d = Desktop::new(800, 600);
    let a = d.create_window("A", 50, 50, 450, 220).unwrap();
    assert_eq!(a, 1);
    assert_eq!(d.focused_window(), Some(1));
    let b = d.create_window("B", 60, 60, 400, 180).unwrap();
    assert_eq!(b, 2);
    assert_eq!(d.focused_window(), Some(2));
    // window 1 no longer holds the flag
    let slot_a = (0..32)
        .find(|&i| d.windows[i].as_ref().map(|w| w.id) == Some(1))
        .unwrap();
    assert!(!d.windows[slot_a].as_ref().unwrap().flags.focused);

    // a click in window A's title bar: B covers (60.., 60..), so click at
    // (52, 55), inside A's title bar only
    d.handle_mouse_move(52, 55);
    d.handle_mouse_button(MouseButton::Left, true);
    assert_eq!(d.focused_window(), Some(1));
    // the drag began with the grab offset from the window corner
    assert_eq!(d.dragging, Some(slot_a));
    assert_eq!(d.drag_offset.x, 52 - 50);
    assert_eq!(d.drag_offset.y, 55 - 50);
    // release completes the drag
    d.handle_mouse_button(MouseButton::Left, false);
    assert_eq!(d.dragging, None);
}

#[test]
fn destroy_window_compacts_and_clears_focus() {
    let mut d = Desktop::new(800, 600);
    d.create_window("A", 0, 0, 200, 100).unwrap();
    d.create_window("B", 10, 10, 200, 100).unwrap();
    let slot_b = (0..32)
        .find(|&i| d.windows[i].as_ref().map(|w| w.id) == Some(2))
        .unwrap();
    assert!(d.destroy_window(slot_b));
    assert_eq!(d.window_count, 1);
    assert_eq!(d.focused_window(), None);
    assert!(!d.destroy_window(slot_b));
}

#[test]
fn dragging_moves_the_window() {
    let mut d = Desktop::new(800, 600);
    d.create_window("A", 100, 100, 200, 150).unwrap();
    d.handle_mouse_move(110, 105);
    d.handle_mouse_button(MouseButton::Left, true);
    d.handle_mouse_move(210, 155);
    let slot = (0..32)
        .find(|&i| d.windows[i].as_ref().map(|w| w.id) == Some(1))
        .unwrap();
    let w = d.windows[slot].as_ref().unwrap();
    assert_eq!(w.bounds.x, 210 - 10);
    assert_eq!(w.bounds.y, 155 - 5);
}

#[test]
fn window_geometry_and_resize_minimums() {
    let mut w = Window::new(7, "hello", 10, 20, 300, 200);
    assert_eq!(w.id, 7);
    assert_eq!(w.title(), "hello");
    let c = w.content_rect_abs();
    assert_eq!(c.x, 13);
    assert_eq!(c.y, 40);
    assert_eq!(c.width, 294);
    assert_eq!(c.height, 177);
    assert!(w.in_title_bar(15, 25));
    assert!(!w.in_title_bar(15, 45));
    assert!(w.contains(10, 20));
    assert!(!w.contains(9, 20));
    w.resize(10, 10);
    assert_eq!(w.bounds.width, 100);
    assert_eq!(w.bounds.height, 43);
    w.move_to(-5, -5);
    assert_eq!(w.bounds.x, -5);
}

#[test]
fn still_frame_keeps_front_buffer_outside_cursor() {
    let mut d = Desktop::new(64, 64);
    d.create_window("A", 2, 2, 100, 50);
    let mut back = Framebuffer::new(64, 64, 4, 256);
    let mut front = Framebuffer::new(64, 64, 4, 256);
    // first frame renders the scene and draws the cursor
    d.draw(&mut back, &mut front);
    let snapshot: Vec<u8> = front.data.clone();
    let (mx, my) = d.mouse_pos();
    // second frame with no state change
    d.draw(&mut back, &mut front);
    let mut changed_outside = 0;
    for y in 0..64i64 {
        for x in 0..64i64 {
            let inside = x >= mx as i64 && x < mx as i64 + 16 && y >= my as i64 && y < my as i64 + 16;
            if !inside {
                let off = (y * 256 + x * 4) as usize;
                for j in 0..4 {
                    if front.data[off + j] != snapshot[off + j] {
                        changed_outside += 1;
                    }
                }
            }
        }
    }
    assert_eq!(changed_outside, 0);
}

#[test]
fn terminal_echoes_and_rolls() {
    let mut d = Desktop::new(800, 600);
    let id = d.create_terminal_window(100, 280, 400, 180);
    assert!(id.is_some());
    assert!(d.is_terminal_focused());
    d.term_key_input('l');
    d.term_key_input('s');
    let t = d.terminal.as_ref().unwrap();
    assert_eq!(t.input(), "ls");
    d.term_enter();
    let t = d.terminal.as_ref().unwrap();
    assert_eq!(t.input(), "");
    let lines = t.lines();
    // welcome text, echo, and the two listing lines, rolled to at most 8
    assert!(lines.len() <= 8);
    assert_eq!(lines[lines.len() - 3], "> ls");
    assert_eq!(lines[lines.len() - 2], "Documents/ Projects/ Downloads/");
    assert_eq!(lines[lines.len() - 1], "notes.txt main.rs Cargo.toml");
}

#[test]
fn raising_and_destroying_keep_relative_order() {
    let mut d = Desktop::new(800, 600);
    d.create_window("a", 10, 10, 150, 100).unwrap();
    d.create_window("b", 30, 30, 150, 100).unwrap();
    d.create_window("c", 50, 50, 150, 100).unwrap();
    // newest slot first: c (slot 2), b (slot 1), a (slot 0)
    assert_eq!(&d.z_order[..3], &[2, 1, 0]);
    // clicking the bottom window raises it; the others keep their order
    d.handle_mouse_move(15, 15);
    d.handle_mouse_button(MouseButton::Left, true);
    d.handle_mouse_button(MouseButton::Left, false);
    assert_eq!(&d.z_order[..3], &[0, 2, 1]);
    // destroying the middle entry closes the gap, keeping the order
    assert!(d.destroy_window(2));
    assert_eq!(&d.z_order[..2], &[0, 1]);
    assert_eq!(d.window_count, 2);
}

#[test]
fn key_routing_decision() {
    assert_eq!(Desktop::route_key(true, KeyCode::Enter, Some('\n')), KeyRoute::TermEnter);
    assert_eq!(Desktop::route_key(true, KeyCode::Backspace, None), KeyRoute::TermBackspace);
    assert_eq!(Desktop::route_key(true, KeyCode::A, Some('a')), KeyRoute::TermChar('a'));
    assert_eq!(Desktop::route_key(true, KeyCode::F1, None), KeyRoute::Ignored);
    assert_eq!(Desktop::route_key(false, KeyCode::Enter, Some('\n')), KeyRoute::ClickFocused);
    assert_eq!(Desktop::route_key(false, KeyCode::A, Some('a')), KeyRoute::Ignored);
}
