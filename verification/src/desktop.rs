//! Desktop / window manager: a fixed-capacity window table, a z-order of
//! slot indices (front first), focus, drag state, and the double-buffered
//! compositor with a direct-to-front software cursor.
//!
//! Discrete lifecycle transitions (create, destroy, focus, z-order, move)
//! go through the window-manager EventChain; continuous events (mouse
//! tracking, painting) are direct calls.

use vstd::prelude::*;
use vstd::string::StrSliceExecFns;
use crate::framebuffer::Framebuffer;
use crate::gui::{Color, MouseButton, Point};
use crate::theme::Theme;
use crate::window::{Window, BORDER_WIDTH, COORD_LIMIT, TITLE_HEIGHT};
use crate::wm_events::{WmEventDispatcher, Z_BRING_TO_FRONT};

verus! {

/// Maximum number of windows
pub const MAX_WINDOWS: usize = 32;

/// Software cursor size, in pixels per side
pub const CURSOR_SIZE: u32 = 16;

/// One row of the cursor shape bitmap (1 = white body pixel).
pub open spec fn spec_cursor_bitmap(row: int) -> u16 {
    if row == 0 {
        0x8000
    } else if row == 1 {
        0xC000
    } else if row == 2 {
        0xE000
    } else if row == 3 {
        0xF000
    } else if row == 4 {
        0xF800
    } else if row == 5 {
        0xFC00
    } else if row == 6 {
        0xFE00
    } else if row == 7 {
        0xFF00
    } else if row == 8 {
        0xFF80
    } else if row == 9 {
        0xFFC0
    } else if row == 10 {
        0xFC00
    } else if row == 11 {
        0xDE00
    } else if row == 12 {
        0x8F00
    } else if row == 13 {
        0x0780
    } else if row == 14 {
        0x0780
    } else {
        0x0300
    }
}

/// One row of the cursor mask bitmap (1 = opaque pixel).
pub open spec fn spec_cursor_mask(row: int) -> u16 {
    if row == 0 {
        0xC000
    } else if row == 1 {
        0xE000
    } else if row == 2 {
        0xF000
    } else if row == 3 {
        0xF800
    } else if row == 4 {
        0xFC00
    } else if row == 5 {
        0xFE00
    } else if row == 6 {
        0xFF00
    } else if row == 7 {
        0xFF80
    } else if row == 8 {
        0xFFC0
    } else if row == 9 {
        0xFFE0
    } else if row == 10 {
        0xFFC0
    } else if row == 11 {
        0xFF80
    } else if row == 12 {
        0xDFC0
    } else if row == 13 {
        0x8FC0
    } else if row == 14 {
        0x0FC0
    } else {
        0x0780
    }
}

/// The cursor shape rows, arrow body.
fn cursor_bitmap_row(row: usize) -> (r: u16)
    requires
        row < 16,
    ensures
        r == spec_cursor_bitmap(row as int),
{
    let rows: [u16; 16] = [
        0x8000,
        0xC000,
        0xE000,
        0xF000,
        0xF800,
        0xFC00,
        0xFE00,
        0xFF00,
        0xFF80,
        0xFFC0,
        0xFC00,
        0xDE00,
        0x8F00,
        0x0780,
        0x0780,
        0x0300,
    ];
    rows[row]
}

/// The cursor mask rows, opaque outline.
fn cursor_mask_row(row: usize) -> (r: u16)
    requires
        row < 16,
    ensures
        r == spec_cursor_mask(row as int),
{
    let rows: [u16; 16] = [
        0xC000,
        0xE000,
        0xF000,
        0xF800,
        0xFC00,
        0xFE00,
        0xFF00,
        0xFF80,
        0xFFC0,
        0xFFE0,
        0xFFC0,
        0xFF80,
        0xDFC0,
        0x8FC0,
        0x0FC0,
        0x0780,
    ];
    rows[row]
}

/// Terminal application state, held on the heap by the desktop.
pub struct Terminal {
    /// Output lines
    lines: Vec<String>,
    /// Maximum lines to keep
    max_lines: usize,
    /// Current input buffer
    input: String,
}

/// Relies on String::push: appends exactly the one character.
#[verifier::external_body]
fn string_push_char(s: &mut String, c: char)
    ensures
        final(s)@ == old(s)@.push(c),
{
    s.push(c);
}

/// Relies on String::pop: removes and returns the last character, or
/// nothing from an empty string.
#[verifier::external_body]
fn string_pop_char(s: &mut String) -> (r: Option<char>)
    ensures
        old(s)@.len() == 0 ==> r is None && final(s)@ == old(s)@,
        old(s)@.len() > 0 ==> r == Some(old(s)@.last()) && final(s)@ == old(s)@.drop_last(),
{
    s.pop()
}

impl Terminal {
    /// The output lines, as character sequences.
    pub closed spec fn lines_model(&self) -> Seq<Seq<char>> {
        self.lines@.map_values(|s: String| s@)
    }

    /// The pending input line.
    pub closed spec fn input_model(&self) -> Seq<char> {
        self.input@
    }

    pub closed spec fn wf(&self) -> bool {
        &&& self.max_lines == 8
        &&& self.lines.len() <= 8
        &&& self.input@.len() <= 40
    }

    /// Create a new terminal with its welcome text.
    pub fn new() -> (r: Box<Terminal>)
        ensures
            r.wf(),
            r.lines_model().len() == 3,
            r.input_model() == Seq::<char>::empty(),
    {
        let mut term = Terminal { lines: Vec::new(), max_lines: 8, input: String::new() };
        term.print("Rustacean OS v0.1.0");
        term.print("Type 'help' for commands");
        term.print("");
        Box::new(term)
    }

    /// Print a line to the terminal, rolling the oldest line out when the
    /// scrollback is full.
    pub fn print(&mut self, text: &str)
        requires
            old(self).wf(),
        ensures
            final(self).wf(),
            final(self).lines_model() == (if old(self).lines_model().len() >= 8 {
                old(self).lines_model().skip(1).push(text@)
            } else {
                old(self).lines_model().push(text@)
            }),
            final(self).input_model() == old(self).input_model(),
    {
        if self.lines.len() >= self.max_lines {
            self.lines.remove(0);
            proof {
                assert(self.lines@.map_values(|s: String| s@) =~= old(
                    self,
                ).lines@.map_values(|s: String| s@).skip(1));
            }
        }
        let ghost mid = self.lines@.map_values(|s: String| s@);
        self.lines.push(text.to_owned());
        proof {
            assert(self.lines@.map_values(|s: String| s@) =~= mid.push(text@));
        }
    }

    /// Handle a character of input, up to the line capacity.
    pub fn key_input(&mut self, c: char)
        requires
            old(self).wf(),
        ensures
            final(self).wf(),
            final(self).lines_model() == old(self).lines_model(),
            final(self).input_model() == (if old(self).input_model().len() < 40 {
                old(self).input_model().push(c)
            } else {
                old(self).input_model()
            }),
    {
        if self.input.unicode_len() < 40 {
            string_push_char(&mut self.input, c);
        }
    }

    /// Handle backspace.
    pub fn backspace(&mut self)
        requires
            old(self).wf(),
        ensures
            final(self).wf(),
            final(self).lines_model() == old(self).lines_model(),
            final(self).input_model() == (if old(self).input_model().len() == 0 {
                old(self).input_model()
            } else {
                old(self).input_model().drop_last()
            }),
    {
        let _ = string_pop_char(&mut self.input);
    }

    /// Handle enter: echo the command, execute it, clear the input.
    pub fn enter(&mut self)
        requires
            old(self).wf(),
        ensures
            final(self).wf(),
            final(self).input_model() == Seq::<char>::empty(),
    {
        let echo: String = "> ".to_owned().concat(self.input.as_str());
        self.print(echo.as_str());

        let cmd = trim_spaces(self.input.as_str());
        self.execute(cmd.as_str());

        self.input = String::new();
    }

    /// Execute a command: a small fixed vocabulary; anything else reports
    /// itself unknown.
    fn execute(&mut self, cmd: &str)
        requires
            old(self).wf(),
        ensures
            final(self).wf(),
            final(self).input_model() == old(self).input_model(),
    {
        if crate::context::str_eq(cmd, "help") {
            self.print("Commands: help ls clear info");
        } else if crate::context::str_eq(cmd, "ls") {
            self.print("Documents/ Projects/ Downloads/");
            self.print("notes.txt main.rs Cargo.toml");
        } else if crate::context::str_eq(cmd, "clear") {
            self.lines = Vec::new();
        } else if crate::context::str_eq(cmd, "info") {
            self.print("CPU: Pentium III 450MHz");
            self.print("RAM: 256 MB");
            self.print("GPU: ATI Rage Mobility P");
        } else if crate::context::str_eq(cmd, "") {
        } else {
            self.print("Unknown cmd. Try 'help'");
        }
    }

    /// The output lines for rendering.
    pub fn lines(&self) -> (r: &Vec<String>)
        ensures
            r@.map_values(|s: String| s@) == self.lines_model(),
            r@.len() == self.lines_model().len(),
    {
        &self.lines
    }

    /// The pending input line.
    pub fn input(&self) -> (r: &str)
        ensures
            r@ == self.input_model(),
    {
        self.input.as_str()
    }
}

/// Strip leading and trailing ASCII spaces and tabs.
fn trim_spaces(s: &str) -> (r: String)
    ensures
        r@.len() <= s@.len(),
{
    let n = s.unicode_len();
    let mut a: usize = 0;
    while a < n && (s.get_char(a) == ' ' || s.get_char(a) == '\t')
        invariant
            a <= n,
            n == s@.len(),
        decreases n - a,
    {
        a += 1;
    }
    let mut b: usize = n;
    while b > a && (s.get_char(b - 1) == ' ' || s.get_char(b - 1) == '\t')
        invariant
            a <= b <= n,
            n == s@.len(),
        decreases b,
    {
        b -= 1;
    }
    s.substring_char(a, b).to_owned()
}

/// Two duplicate-free index sequences of equal length where the second's
/// members all appear in the first hold exactly the same members.
proof fn lemma_distinct_subset_complete(s: Seq<usize>, t: Seq<usize>)
    requires
        s.no_duplicates(),
        t.no_duplicates(),
        s.len() == t.len(),
        t.to_set().subset_of(s.to_set()),
    ensures
        s.to_set() == t.to_set(),
{
    broadcast use vstd::seq_lib::seq_to_set_is_finite;

    s.unique_seq_to_set();
    t.unique_seq_to_set();
    assert forall|x: usize| s.to_set().contains(x) implies t.to_set().contains(x) by {
        if !t.to_set().contains(x) {
            assert(t.to_set().subset_of(s.to_set().remove(x))) by {
                assert forall|y: usize| t.to_set().contains(y) implies s.to_set().remove(
                    x,
                ).contains(y) by {
                    assert(s.to_set().contains(y));
                }
            }
            vstd::set_lib::lemma_len_subset(t.to_set(), s.to_set().remove(x));
            assert(s.to_set().remove(x).len() == s.to_set().len() - 1);
            assert(false);
        }
    }
    assert(s.to_set() =~= t.to_set());
}


/// Desktop state: the window table, the z-order, focus, cursor and drag
/// state, and the compositor bookkeeping.
/// What a drained key event becomes.
#[derive(Clone, Copy, Debug, PartialEq, Eq, Structural)]
pub enum KeyRoute {
    /// Commit the terminal's input line
    TermEnter,
    /// Erase the last character of the terminal's input line
    TermBackspace,
    /// Append a character to the terminal's input line
    TermChar(char),
    /// Click the focused window
    ClickFocused,
    /// Nothing to do
    Ignored,
}

pub struct Desktop {
    /// All windows, by slot
    pub windows: Vec<Option<Window>>,
    /// Window z-order (slot indices, front first)
    pub z_order: Vec<usize>,
    /// Number of windows in the z-order
    pub window_count: usize,
    /// Currently focused window slot
    pub focused: Option<usize>,
    /// Mouse position
    pub mouse_x: i32,
    pub mouse_y: i32,
    /// Mouse button state
    pub mouse_buttons: u8,
    /// Window slot being dragged
    pub dragging: Option<usize>,
    /// Drag offset from window corner
    pub drag_offset: Point,
    /// Drag start position, for the move-completion event
    pub drag_start_x: i32,
    pub drag_start_y: i32,
    /// Screen dimensions
    pub screen_width: u32,
    pub screen_height: u32,
    /// Next window ID
    pub next_id: u32,
    /// Desktop needs full redraw
    pub dirty: bool,
    /// Hardware cursor in use: skip software cursor drawing
    pub hw_cursor: bool,
    /// Saved pixels under the software cursor, from the front buffer
    pub cursor_save: Vec<Color>,
    pub cursor_save_x: i32,
    pub cursor_save_y: i32,
    /// Terminal application, on the heap
    pub terminal: Option<Box<Terminal>>,
    /// Terminal window ID
    pub term_window_id: Option<u32>,
}

impl Desktop {
    /// Whether slot `i` holds a window.
    pub open spec fn occupied(&self, i: int) -> bool {
        0 <= i < MAX_WINDOWS && self.windows@[i] is Some
    }

    /// The window in slot `i`.
    pub open spec fn win(&self, i: int) -> Window {
        self.windows@[i]->0
    }

    /// The desktop invariant: fixed table sizes; every z-order entry
    /// points at an occupied slot and no slot appears twice; ids are
    /// unique and below the id counter; the focused flag marks exactly
    /// the focused slot; drag and cursor state point at real windows.
    pub open spec fn wf(&self) -> bool {
        &&& self.windows.len() == MAX_WINDOWS
        &&& self.z_order.len() == MAX_WINDOWS
        &&& self.cursor_save.len() == 256
        &&& self.window_count <= MAX_WINDOWS
        &&& forall|i: int|
            0 <= i < self.window_count ==> (#[trigger] self.z_order@[i]) < MAX_WINDOWS
                && self.occupied(self.z_order@[i] as int)
        &&& forall|i: int, j: int|
            0 <= i < j < self.window_count ==> self.z_order@[i] != self.z_order@[j]
        &&& forall|i: int, j: int|
            #![trigger self.windows@[i], self.windows@[j]]
            0 <= i < j < MAX_WINDOWS && self.occupied(i) && self.occupied(j) ==> self.win(i).id
                != self.win(j).id
        &&& forall|i: int| #![trigger self.windows@[i]] self.occupied(i) ==> self.win(i).wf()
        &&& forall|i: int| #![trigger self.windows@[i]] self.occupied(i) ==> self.win(i).id >= 1
        &&& forall|i: int|
            #![trigger self.windows@[i]]
            self.occupied(i) ==> self.win(i).id < self.next_id
        &&& forall|i: int|
            #![trigger self.windows@[i]]
            self.occupied(i) ==> (self.win(i).flags.focused <==> self.focused == Some(i as usize))
        &&& (match self.focused {
            Some(f) => self.occupied(f as int),
            None => true,
        })
        &&& (match self.dragging {
            Some(d) => d < MAX_WINDOWS,
            None => true,
        })
        &&& (match self.terminal {
            Some(t) => t.wf(),
            None => true,
        })
        &&& 1 <= self.screen_width <= 8192
        &&& 1 <= self.screen_height <= 8192
        &&& 0 <= self.mouse_x < self.screen_width
        &&& 0 <= self.mouse_y < self.screen_height
        &&& self.next_id >= 1
        &&& -2100000 <= self.drag_offset.x <= 2100000
        &&& -2100000 <= self.drag_offset.y <= 2100000
        &&& -COORD_LIMIT <= self.cursor_save_x <= COORD_LIMIT
        &&& -COORD_LIMIT <= self.cursor_save_y <= COORD_LIMIT
        &&& (self.window_count == 0 ==> self.focused is None)
    }

    /// Every member of the new z-order already stood in the old one.
    pub open spec fn zorder_from(&self, pre: &Desktop) -> bool {
        forall|j: int|
            0 <= j < self.window_count ==> exists|j0: int|
                0 <= j0 < pre.window_count && pre.z_order@[j0] == #[trigger] self.z_order@[j]
    }

    /// The number of occupied slots equals the z-order population.
    pub open spec fn slots_consistent(&self) -> bool {
        forall|i: int|
            #![trigger self.windows@[i]]
            0 <= i < MAX_WINDOWS && self.occupied(i) ==> exists|j: int|
                0 <= j < self.window_count && self.z_order@[j] == i as usize
    }

    /// Create a new desktop for the given screen.
    pub fn new(screen_width: u32, screen_height: u32) -> (r: Desktop)
        requires
            1 <= screen_width <= 8192,
            1 <= screen_height <= 8192,
        ensures
            r.wf(),
            r.slots_consistent(),
            r.window_count == 0,
            r.focused is None,
            r.next_id == 1,
            r.dirty,
            !r.hw_cursor,
            r.screen_width == screen_width,
            r.screen_height == screen_height,
            r.mouse_x == screen_width / 2,
            r.mouse_y == screen_height / 2,
            forall|i: int| 0 <= i < MAX_WINDOWS ==> !r.occupied(i),
    {
        let mut windows: Vec<Option<Window>> = Vec::new();
        let mut z_order: Vec<usize> = Vec::new();
        let mut cursor_save: Vec<Color> = Vec::new();
        let mut i: usize = 0;
        while i < MAX_WINDOWS
            invariant
                i <= MAX_WINDOWS,
                windows@.len() == i,
                z_order@.len() == i,
                forall|j: int| 0 <= j < i ==> windows@[j] is None,
                forall|j: int| 0 <= j < i ==> z_order@[j] == 0usize,
            decreases MAX_WINDOWS - i,
        {
            windows.push(None);
            z_order.push(0);
            i += 1;
        }
        let mut k: usize = 0;
        while k < 256
            invariant
                k <= 256,
                cursor_save@.len() == k,
            decreases 256 - k,
        {
            cursor_save.push(Color { r: 0, g: 0, b: 0 });
            k += 1;
        }
        Desktop {
            windows,
            z_order,
            window_count: 0,
            focused: None,
            mouse_x: (screen_width / 2) as i32,
            mouse_y: (screen_height / 2) as i32,
            mouse_buttons: 0,
            dragging: None,
            drag_offset: Point { x: 0, y: 0 },
            drag_start_x: 0,
            drag_start_y: 0,
            screen_width,
            screen_height,
            next_id: 1,
            dirty: true,
            hw_cursor: false,
            cursor_save,
            cursor_save_x: -1,
            cursor_save_y: -1,
            terminal: None,
            term_window_id: None,
        }
    }

    /// Enable or disable hardware cursor mode.
    pub fn set_hw_cursor(&mut self, enabled: bool)
        requires
            old(self).wf(),
        ensures
            final(self).wf(),
            final(self).hw_cursor == enabled,
            final(self).windows@ == old(self).windows@,
            final(self).window_count == old(self).window_count,
    {
        self.hw_cursor = enabled;
    }

    /// The topmost visible window in the z-order from position `i` on
    /// that contains the point, if any.
    pub open spec fn visible_hit_from(&self, i: int, x: int, y: int) -> Option<usize>
        decreases self.window_count - i,
    {
        if i < 0 || i >= self.window_count {
            None
        } else {
            let slot = self.z_order@[i];
            if self.occupied(slot as int) && self.win(slot as int).flags.visible && self.win(
                slot as int,
            ).spec_contains(x, y) {
                Some(slot)
            } else {
                self.visible_hit_from(i + 1, x, y)
            }
        }
    }

    /// Find the topmost visible window containing the point, scanning the
    /// z-order front to back: exactly the first z-order entry whose
    /// window is visible and contains it, and nothing when none does.
    pub fn window_at(&self, x: i32, y: i32) -> (r: Option<usize>)
        requires
            self.wf(),
        ensures
            r == self.visible_hit_from(0, x as int, y as int),
            match r {
                Some(s) => self.occupied(s as int) && self.win(s as int).flags.visible && self.win(
                    s as int,
                ).spec_contains(x as int, y as int),
                None => true,
            },
    {
        let mut i: usize = 0;
        while i < self.window_count
            invariant
                self.wf(),
                i <= self.window_count,
                self.visible_hit_from(0, x as int, y as int) == self.visible_hit_from(
                    i as int,
                    x as int,
                    y as int,
                ),
            decreases self.window_count - i,
        {
            let slot = self.z_order[i];
            match &self.windows[slot] {
                Some(window) => {
                    if window.flags.visible && window.contains(x, y) {
                        proof {
                            assert(self.visible_hit_from(i as int, x as int, y as int) == Some(
                                slot,
                            ));
                        }
                        return Some(slot);
                    }
                },
                None => {},
            }
            proof {
                assert(self.visible_hit_from(i as int, x as int, y as int)
                    == self.visible_hit_from(i as int + 1, x as int, y as int));
            }
            i += 1;
        }
        None
    }

    /// Handle mouse movement (hot path): clamp the cursor to the screen
    /// and, while a drag is live, move the dragged window with it.
    pub fn handle_mouse_move(&mut self, x: i32, y: i32)
        requires
            old(self).wf(),
        ensures
            final(self).wf(),
            final(self).mouse_x == crate::mouse::spec_clamp(
                x as int,
                0,
                old(self).screen_width - 1,
            ),
            final(self).mouse_y == crate::mouse::spec_clamp(
                y as int,
                0,
                old(self).screen_height - 1,
            ),
            old(self).dragging is None ==> final(self).windows@ == old(self).windows@,
            old(self).dragging matches Some(d) ==> old(self).occupied(d as int) ==> {
                let mx = crate::mouse::spec_clamp(x as int, 0, old(self).screen_width - 1);
                let my = crate::mouse::spec_clamp(y as int, 0, old(self).screen_height - 1);
                &&& final(self).win(d as int).bounds.x == crate::mouse::spec_clamp(
                    mx - old(self).drag_offset.x,
                    -COORD_LIMIT as int,
                    COORD_LIMIT as int,
                )
                &&& final(self).win(d as int).bounds.y == crate::mouse::spec_clamp(
                    my - old(self).drag_offset.y,
                    -COORD_LIMIT as int,
                    COORD_LIMIT as int,
                )
                &&& final(self).dirty
                &&& forall|i: int|
                    0 <= i < MAX_WINDOWS && i != d ==> final(self).windows@[i] == old(
                        self,
                    ).windows@[i]
            },
            final(self).window_count == old(self).window_count,
            final(self).z_order@ == old(self).z_order@,
            final(self).focused == old(self).focused,
    {
        self.mouse_x = if x < 0 {
            0
        } else if x > self.screen_width as i32 - 1 {
            self.screen_width as i32 - 1
        } else {
            x
        };
        self.mouse_y = if y < 0 {
            0
        } else if y > self.screen_height as i32 - 1 {
            self.screen_height as i32 - 1
        } else {
            y
        };

        match self.dragging {
            Some(slot) => {
                let new_x = clamp_coord(self.mouse_x as i64 - self.drag_offset.x as i64);
                let new_y = clamp_coord(self.mouse_y as i64 - self.drag_offset.y as i64);
                let w = self.windows[slot].take();
                match w {
                    Some(mut window) => {
                        window.move_to(new_x, new_y);
                        self.windows.set(slot, Some(window));
                        self.dirty = true;
                        proof {
                            assert forall|i: int, j: int|
                                0 <= i < j < MAX_WINDOWS && self.occupied(i) && self.occupied(
                                j) implies self.win(i).id != self.win(j).id by {
                                assert(old(self).occupied(i) && old(self).occupied(j));
                            }
                        }
                    },
                    None => {
                        self.windows.set(slot, None);
                        proof {
                            assert(self.windows@ =~= old(self).windows@);
                        }
                    },
                }
            },
            None => {},
        }
    }

    /// Handle keyboard input: forwarded to the focused window.
    pub fn handle_key(&mut self, key: char, pressed: bool)
        requires
            old(self).wf(),
        ensures
            final(self).wf(),
            *final(self) == *old(self),
    {
        // dispatching into per-window handlers is a later stage; the
        // focused window is where it would go
    }

    /// Mark desktop as dirty (windows need redraw)
    pub fn mark_dirty(&mut self)
        requires
            old(self).wf(),
        ensures
            final(self).wf(),
            final(self).dirty,
            final(self).windows@ == old(self).windows@,
            final(self).window_count == old(self).window_count,
    {
        self.dirty = true;
    }

    /// Get mouse position
    pub fn mouse_pos(&self) -> (r: (i32, i32))
        ensures
            r.0 == self.mouse_x && r.1 == self.mouse_y,
    {
        (self.mouse_x, self.mouse_y)
    }

    /// The focused window's id, if any.
    pub fn focused_window(&self) -> (r: Option<u32>)
        requires
            self.wf(),
        ensures
            match r {
                Some(id) => self.focused matches Some(f) && self.win(f as int).id == id,
                None => self.focused is None,
            },
    {
        match self.focused {
            Some(slot) => {
                match &self.windows[slot] {
                    Some(w) => Some(w.id),
                    None => None,
                }
            },
            None => None,
        }
    }

    /// Find a window by id, for content drawing.
    pub fn get_window(&mut self, id: u32) -> (r: Option<&mut Window>)
        requires
            old(self).wf(),
    {
        let mut i: usize = 0;
        while i < MAX_WINDOWS
            invariant
                i <= MAX_WINDOWS,
                self.windows.len() == MAX_WINDOWS,
            decreases MAX_WINDOWS - i,
        {
            match &self.windows[i] {
                Some(w) => {
                    if w.id == id {
                        break ;
                    }
                },
                None => {},
            }
            i += 1;
        }
        if i < MAX_WINDOWS {
            self.windows[i].as_mut()
        } else {
            None
        }
    }

    /// Get screen dimensions
    pub fn screen_size(&self) -> (r: (u32, u32))
        ensures
            r.0 == self.screen_width && r.1 == self.screen_height,
    {
        (self.screen_width, self.screen_height)
    }

    /// Create a new window through the window-manager chain.
    ///
    /// Returns the fresh id exactly when the requested size is within
    /// 100..=2000 by 50..=2000 and a slot is free; the window then sits at
    /// the front of the z-order and holds the focus, and no other window
    /// does.  On rejection the desktop is unchanged.
    pub fn create_window(&mut self, title: &str, x: i32, y: i32, width: u32, height: u32) -> (r:
        Option<u32>)
        requires
            old(self).wf(),
            old(self).slots_consistent(),
            -COORD_LIMIT <= x <= COORD_LIMIT,
            -COORD_LIMIT <= y <= COORD_LIMIT,
            width <= COORD_LIMIT,
            height <= COORD_LIMIT,
            old(self).next_id < 0xFFFFFFFF,
        ensures
            final(self).wf(),
            final(self).slots_consistent(),
            r is Some <==> (100 <= width <= 2000 && 50 <= height <= 2000 && exists|i: int|
                0 <= i < MAX_WINDOWS && !old(self).occupied(i)),
            r is None ==> *final(self) == *old(self),
            r matches Some(id) ==> {
                &&& id == old(self).next_id
                &&& final(self).next_id == old(self).next_id + 1
                &&& final(self).window_count == old(self).window_count + 1
                &&& final(self).occupied(final(self).z_order@[0] as int)
                &&& final(self).win(final(self).z_order@[0] as int).id == id
                &&& final(self).focused == Some(final(self).z_order@[0] as usize)
                &&& final(self).win(final(self).z_order@[0] as int).flags.focused
                &&& final(self).win(final(self).z_order@[0] as int).bounds.x == x
                &&& final(self).win(final(self).z_order@[0] as int).bounds.y == y
                &&& final(self).win(final(self).z_order@[0] as int).bounds.width == width
                &&& final(self).win(final(self).z_order@[0] as int).bounds.height == height
                &&& final(self).dirty
                &&& forall|i: int|
                    #![trigger final(self).windows@[i]]
                    0 <= i < MAX_WINDOWS && old(self).occupied(i) ==> {
                        &&& final(self).occupied(i)
                        &&& final(self).win(i).id == old(self).win(i).id
                        &&& final(self).win(i).bounds == old(self).win(i).bounds
                        &&& final(self).win(i).title@ == old(self).win(i).title@
                        &&& final(self).win(i).flags.visible == old(self).win(i).flags.visible
                    }
            },
    {
        if !WmEventDispatcher::dispatch_create(x, y, width, height) {
            return None;
        }

        // find a free slot
        let mut slot: usize = 0;
        while slot < MAX_WINDOWS && self.windows[slot].is_some()
            invariant
                slot <= MAX_WINDOWS,
                self.windows.len() == MAX_WINDOWS,
                forall|i: int| 0 <= i < slot ==> self.windows@[i] is Some,
            decreases MAX_WINDOWS - slot,
        {
            slot += 1;
        }
        if slot >= MAX_WINDOWS {
            proof {
                assert forall|i: int| 0 <= i < MAX_WINDOWS implies old(self).occupied(i) by {
                    assert(self.windows@[i] is Some);
                }
            }
            return None;
        }

        proof {
            let zs = self.z_order@.take(self.window_count as int).push(slot);
            assert(zs.no_duplicates()) by {
                assert forall|a: int, b: int|
                    0 <= a < b < zs.len() implies zs[a] != zs[b] by {
                    if b < self.window_count {
                        assert(zs[a] == self.z_order@[a] && zs[b] == self.z_order@[b]);
                    } else {
                        assert(zs[b] == slot);
                        if a < self.window_count {
                            assert(zs[a] == self.z_order@[a]);
                            assert(self.occupied(self.z_order@[a] as int));
                        }
                    }
                }
            }
            assert(forall|a: int| 0 <= a < zs.len() ==> (#[trigger] zs[a]) < 32) by {
                assert(forall|a: int|
                    0 <= a < self.window_count ==> (#[trigger] self.z_order@[a]) < 32);
            }
            crate::intrusive::lemma_distinct_indices_bounded(zs, 32);
            assert(self.window_count < MAX_WINDOWS);
        }
        let id = self.next_id;
        self.next_id = self.next_id + 1;

        let window = Window::new(id, title, x, y, width, height);
        self.windows.set(slot, Some(window));

        // add to the back of the z-order
        let ghost zpre = self.z_order@;
        let count = self.window_count;
        self.z_order.set(count, slot);
        self.window_count = count + 1;

        proof {
            assert forall|i: int|
                0 <= i < self.window_count implies (#[trigger] self.z_order@[i]) < MAX_WINDOWS
                && self.occupied(self.z_order@[i] as int) by {
                if i < old(self).window_count {
                    assert(old(self).occupied(old(self).z_order@[i] as int));
                }
            }
            assert forall|i: int, j: int|
                0 <= i < j < self.window_count implies self.z_order@[i] != self.z_order@[j] by {
                if j == self.window_count - 1 {
                    if i < old(self).window_count {
                        assert(old(self).occupied(old(self).z_order@[i] as int));
                    }
                }
            }
        }

        proof {
            assert(self.z_order@[count as int] == slot);
            assert forall|i: int|
                #![trigger self.windows@[i]]
                0 <= i < MAX_WINDOWS && self.occupied(i) implies exists|j: int|
                0 <= j < self.window_count && self.z_order@[j] == i as usize by {
                if i == slot {
                    assert(self.z_order@[count as int] == (i as int) as usize);
                } else {
                    assert(old(self).occupied(i));
                    let j0 = choose|j0: int|
                        0 <= j0 < old(self).window_count && old(self).z_order@[j0]
                            == i as usize;
                    assert(self.z_order@[j0] == i as usize);
                }
            }
        }
        // focus the new window (brings it to the front)
        let ghost s1 = *self;
        let old_focus_id = self.focused_window_id_internal();
        WmEventDispatcher::dispatch_focus_change(old_focus_id, Some(id));
        self.focus_window(slot);

        self.dirty = true;
        proof {
            let n = self.window_count as int;
            let sv = s1.z_order@.take(n);
            let tv = self.z_order@.take(n);
            assert(sv.no_duplicates()) by {
                assert(forall|a: int, b: int|
                    0 <= a < b < n ==> s1.z_order@[a] != s1.z_order@[b]);
            }
            assert(tv.no_duplicates()) by {
                assert(forall|a: int, b: int|
                    0 <= a < b < n ==> self.z_order@[a] != self.z_order@[b]);
            }
            assert(tv.to_set().subset_of(sv.to_set())) by {
                assert forall|x: usize| tv.to_set().contains(x) implies sv.to_set().contains(
                    x,
                ) by {
                    let j = choose|j: int| 0 <= j < tv.len() && tv[j] == x;
                    assert(tv[j] == self.z_order@[j]);
                    let j0 = choose|j0: int|
                        0 <= j0 < s1.window_count && s1.z_order@[j0] == self.z_order@[j];
                    assert(sv[j0] == s1.z_order@[j0]);
                    assert(sv[j0] == x);
                    assert(sv.contains(x));
                }
            }
            lemma_distinct_subset_complete(sv, tv);
            assert(!old(self).occupied(slot as int));
            assert forall|i: int|
                0 <= i < MAX_WINDOWS && self.occupied(i) implies exists|j: int|
                0 <= j < self.window_count && self.z_order@[j] == i as usize by {
                if i == slot {
                    assert(self.z_order@[0] == slot);
                } else {
                    assert(old(self).occupied(i));
                    let j0 = choose|j0: int|
                        0 <= j0 < old(self).window_count && old(self).z_order@[j0]
                            == i as usize;
                    assert(s1.z_order@[j0] == old(self).z_order@[j0]);
                    assert(sv[j0] == i as usize);
                    assert(sv.contains(i as usize));
                    assert(tv.to_set().contains(i as usize));
                    assert(tv.contains(i as usize));
                    let j = choose|j: int| 0 <= j < tv.len() && tv[j] == i as usize;
                    assert(self.z_order@[j] == i as usize);
                }
            }
        }
        Some(id)
    }

    /// The focused window's id, for dispatch bookkeeping.
    fn focused_window_id_internal(&self) -> (r: Option<u32>)
        requires
            self.wf(),
    {
        match self.focused {
            Some(slot) => {
                match &self.windows[slot] {
                    Some(w) => Some(w.id),
                    None => None,
                }
            },
            None => None,
        }
    }

    /// Focus the window in `slot`, unfocusing the old holder, and bring
    /// it to the front of the z-order.
    #[verifier::rlimit(100)]
    fn focus_window(&mut self, slot: usize)
        requires
            old(self).wf(),
            old(self).slots_consistent(),
            old(self).occupied(slot as int),
            exists|j: int| 0 <= j < old(self).window_count && old(self).z_order@[j] == slot,
        ensures
            final(self).wf(),
            final(self).slots_consistent(),
            final(self).focused == Some(slot),
            final(self).win(slot as int).flags.focused,
            final(self).z_order@[0] == slot,
            final(self).window_count == old(self).window_count,
            final(self).next_id == old(self).next_id,
            final(self).mouse_x == old(self).mouse_x,
            final(self).mouse_y == old(self).mouse_y,
            final(self).mouse_buttons == old(self).mouse_buttons,
            final(self).dragging == old(self).dragging,
            final(self).drag_offset == old(self).drag_offset,
            final(self).drag_start_x == old(self).drag_start_x,
            final(self).drag_start_y == old(self).drag_start_y,
            final(self).dirty,
            forall|i: int|
                0 <= i < MAX_WINDOWS ==> (final(self).occupied(i) <==> old(self).occupied(i)),
            forall|i: int|
                #![trigger final(self).windows@[i]]
                final(self).occupied(i) ==> {
                    &&& final(self).win(i).id == old(self).win(i).id
                    &&& final(self).win(i).bounds == old(self).win(i).bounds
                    &&& final(self).win(i).title@ == old(self).win(i).title@
                    &&& final(self).win(i).content_width == old(self).win(i).content_width
                    &&& final(self).win(i).content_height == old(self).win(i).content_height
                    &&& final(self).win(i).flags.visible == old(self).win(i).flags.visible
                },
            final(self).zorder_from(old(self)),
    {
        let new_id = match &self.windows[slot] {
            Some(w) => w.id,
            None => 0,
        };
        let old_id = self.focused_window_id_internal();

        if !WmEventDispatcher::dispatch_focus_change(old_id, Some(new_id)) {
            proof {
                assert(false);
            }
        }

        // unfocus the old window
        match self.focused {
            Some(old_slot) => {
                let w = self.windows[old_slot].take();
                match w {
                    Some(mut old_win) => {
                        old_win.flags.focused = false;
                        self.windows.set(old_slot, Some(old_win));
                        proof {
                            assert forall|i: int, j: int|
                                0 <= i < j < MAX_WINDOWS && self.occupied(i) && self.occupied(
                                j) implies self.win(i).id != self.win(j).id by {
                                assert(old(self).occupied(i) && old(self).occupied(j));
                            }
                        }
                    },
                    None => {
                        self.windows.set(old_slot, None);
                        proof {
                            assert(self.windows@ =~= old(self).windows@);
                        }
                    },
                }
            },
            None => {},
        }

        // focus the new window
        let ghost mid = *self;
        let w = self.windows[slot].take();
        match w {
            Some(mut win) => {
                win.flags.focused = true;
                self.windows.set(slot, Some(win));
                proof {
                    assert forall|i: int, j: int|
                        0 <= i < j < MAX_WINDOWS && self.occupied(i) && self.occupied(j) implies
                    self.win(i).id != self.win(j).id by {
                        assert(mid.occupied(i) && mid.occupied(j));
                        assert(old(self).occupied(i) && old(self).occupied(j));
                    }
                }
            },
            None => {
                proof {
                    assert(false);
                }
            },
        }
        self.focused = Some(slot);

        // bring to front
        let ghost b0 = *self;
        self.bring_to_front(slot);

        self.dirty = true;
        proof {
            let n = self.window_count as int;
            let sv = b0.z_order@.take(n);
            let tv = self.z_order@.take(n);
            assert(sv.no_duplicates()) by {
                assert(forall|a: int, b: int|
                    0 <= a < b < n ==> b0.z_order@[a] != b0.z_order@[b]);
            }
            assert(tv.no_duplicates()) by {
                assert(forall|a: int, b: int|
                    0 <= a < b < n ==> self.z_order@[a] != self.z_order@[b]);
            }
            assert(tv.to_set().subset_of(sv.to_set())) by {
                assert forall|x: usize| tv.to_set().contains(x) implies sv.to_set().contains(
                    x,
                ) by {
                    let j = choose|j: int| 0 <= j < tv.len() && tv[j] == x;
                    assert(tv[j] == self.z_order@[j]);
                    let j0 = choose|j0: int|
                        0 <= j0 < b0.window_count && b0.z_order@[j0] == self.z_order@[j];
                    assert(sv[j0] == b0.z_order@[j0]);
                    assert(sv[j0] == x);
                    assert(sv.contains(x));
                }
            }
            lemma_distinct_subset_complete(sv, tv);
            assert forall|i: int|
                #![trigger self.windows@[i]]
                0 <= i < MAX_WINDOWS && self.occupied(i) implies exists|j: int|
                0 <= j < self.window_count && self.z_order@[j] == i as usize by {
                assert(old(self).occupied(i));
                let j0 = choose|j0: int|
                    0 <= j0 < old(self).window_count && old(self).z_order@[j0] == i as usize;
                assert(b0.z_order@[j0] == old(self).z_order@[j0]);
                assert(sv[j0] == i as usize);
                assert(sv.contains(i as usize));
                assert(tv.to_set().contains(i as usize));
                assert(tv.contains(i as usize));
                let j = choose|j: int| 0 <= j < tv.len() && tv[j] == i as usize;
                assert(self.z_order@[j] == i as usize);
            }
        }
    }

    /// Move `slot` to the front of the z-order, shifting the entries
    /// before it one step back.
    fn bring_to_front(&mut self, slot: usize)
        requires
            old(self).wf(),
            old(self).occupied(slot as int),
            exists|j: int| 0 <= j < old(self).window_count && old(self).z_order@[j] == slot,
        ensures
            final(self).wf(),
            final(self).z_order@[0] == slot,
            final(self).window_count == old(self).window_count,
            final(self).windows@ == old(self).windows@,
            final(self).focused == old(self).focused,
            final(self).next_id == old(self).next_id,
            final(self).mouse_x == old(self).mouse_x,
            final(self).mouse_y == old(self).mouse_y,
            final(self).mouse_buttons == old(self).mouse_buttons,
            final(self).dragging == old(self).dragging,
            final(self).drag_offset == old(self).drag_offset,
            final(self).drag_start_x == old(self).drag_start_x,
            final(self).drag_start_y == old(self).drag_start_y,
            final(self).zorder_from(old(self)),
            // the rest of the stack keeps its relative order: the raised
            // window moves to the front and everything above its old
            // position shifts back one place
            exists|p: int|
                0 <= p < old(self).window_count && old(self).z_order@[p] == slot && (forall|a: int|
                    1 <= a <= p ==> final(self).z_order@[a] == old(self).z_order@[a - 1]) && (
                forall|a: int|
                    p < a < old(self).window_count ==> final(self).z_order@[a] == old(
                        self,
                    ).z_order@[a]),
    {
        let window_id = match &self.windows[slot] {
            Some(w) => w.id,
            None => 0,
        };

        if !WmEventDispatcher::dispatch_z_order_change(window_id, Z_BRING_TO_FRONT) {
            proof {
                assert(false);
            }
        }

        // find current position
        let mut pos: usize = 0;
        while pos < self.window_count && self.z_order[pos] != slot
            invariant
                pos <= self.window_count,
                self.wf(),
                forall|j: int| 0 <= j < pos ==> self.z_order@[j] != slot,
            decreases self.window_count - pos,
        {
            pos += 1;
        }
        if pos >= self.window_count {
            proof {
                let j = choose|j: int|
                    0 <= j < old(self).window_count && old(self).z_order@[j] == slot;
                assert(false);
            }
            return ;
        }

        if pos == 0 {
            return ;
        }

        // shift others back to make room at the front
        let ghost zpre = self.z_order@;
        let mut i: usize = pos;
        while i >= 1
            invariant
                self.windows@ == old(self).windows@,
                self.z_order.len() == MAX_WINDOWS,
                pos < self.window_count <= MAX_WINDOWS,
                self.window_count == old(self).window_count,
                self.focused == old(self).focused,
                self.dragging == old(self).dragging,
                self.next_id == old(self).next_id,
                self.screen_width == old(self).screen_width,
                self.screen_height == old(self).screen_height,
                self.mouse_x == old(self).mouse_x,
                self.mouse_y == old(self).mouse_y,
                self.mouse_buttons == old(self).mouse_buttons,
                self.drag_offset == old(self).drag_offset,
                self.drag_start_x == old(self).drag_start_x,
                self.drag_start_y == old(self).drag_start_y,
                self.cursor_save@ == old(self).cursor_save@,
                self.cursor_save_x == old(self).cursor_save_x,
                self.cursor_save_y == old(self).cursor_save_y,
                self.terminal == old(self).terminal,
                self.term_window_id == old(self).term_window_id,
                self.hw_cursor == old(self).hw_cursor,
                self.dirty == old(self).dirty,
                i <= pos,
                zpre.len() == MAX_WINDOWS,
                forall|j: int| i < j <= pos ==> self.z_order@[j] == zpre[j - 1],
                forall|j: int| 0 <= j <= i ==> self.z_order@[j] == zpre[j],
                forall|j: int| pos < j < MAX_WINDOWS ==> self.z_order@[j] == zpre[j],
            decreases i,
        {
            let v = self.z_order[i - 1];
            self.z_order.set(i, v);
            i -= 1;
        }
        self.z_order.set(0, slot);
        self.dirty = true;

        proof {
            assert(zpre =~= old(self).z_order@);
            assert(zpre[pos as int] == slot);
            assert forall|a: int| 1 <= a <= (pos as int) implies self.z_order@[a] == old(
                self,
            ).z_order@[a - 1] by {
                assert(self.z_order@[a] == zpre[a - 1]);
            }
            assert forall|a: int|
                (pos as int) < a < old(self).window_count implies self.z_order@[a] == old(
                self,
            ).z_order@[a] by {
                assert(self.z_order@[a] == zpre[a]);
            }
            assert forall|a: int|
                0 <= a < self.window_count implies (#[trigger] self.z_order@[a]) < MAX_WINDOWS
                && self.occupied(self.z_order@[a] as int) by {
                if a == 0 {
                    assert(old(self).occupied(old(self).z_order@[pos as int] as int));
                } else if a <= pos {
                    assert(self.z_order@[a] == zpre[a - 1]);
                    assert(zpre[a - 1] == old(self).z_order@[a - 1]);
                    assert(old(self).occupied(old(self).z_order@[a - 1] as int));
                } else {
                    assert(self.z_order@[a] == zpre[a]);
                    assert(zpre[a] == old(self).z_order@[a]);
                    assert(old(self).occupied(old(self).z_order@[a] as int));
                }
            }
            assert forall|a: int, b: int|
                0 <= a < b < self.window_count implies self.z_order@[a] != self.z_order@[b] by {
                let ai: int = if a == 0 {
                    pos as int
                } else if a <= pos {
                    a - 1
                } else {
                    a
                };
                let bi: int = if b <= pos {
                    b - 1
                } else {
                    b
                };
                assert(self.z_order@[a] == old(self).z_order@[ai]);
                assert(self.z_order@[b] == old(self).z_order@[bi]);
                assert(ai != bi);
                assert(old(self).z_order@[ai] != old(self).z_order@[bi]);
            }
            assert forall|j: int|
                0 <= j < self.window_count implies exists|j0: int|
                0 <= j0 < old(self).window_count && old(self).z_order@[j0] == #[trigger] self.z_order@[j] by {
                if j == 0 {
                    assert(old(self).z_order@[pos as int] == slot);
                } else if j <= pos {
                    assert(self.z_order@[j] == zpre[j - 1]);
                } else {
                    assert(self.z_order@[j] == zpre[j]);
                }
            }
        }
    }
}

impl Desktop {
    /// Destroy the window in `slot` through the window-manager chain.
    ///
    /// Returns true exactly when the slot holds a window; the slot is then
    /// emptied, the z-order compacted, and the focus cleared if it was on
    /// this window.  Anything else leaves the desktop unchanged.
    pub fn destroy_window(&mut self, slot: usize) -> (r: bool)
        requires
            old(self).wf(),
            old(self).slots_consistent(),
        ensures
            final(self).wf(),
            final(self).slots_consistent(),
            r == (slot < MAX_WINDOWS && old(self).occupied(slot as int)),
            !r ==> *final(self) == *old(self),
            r ==> {
                &&& !final(self).occupied(slot as int)
                &&& final(self).window_count == old(self).window_count - 1
                &&& (old(self).focused == Some(slot) ==> final(self).focused is None)
                &&& (old(self).focused != Some(slot) ==> final(self).focused == old(
                    self,
                ).focused)
                &&& final(self).dirty
                &&& forall|i: int|
                    0 <= i < MAX_WINDOWS && i != slot ==> final(self).windows@[i] == old(
                        self,
                    ).windows@[i]
                // the remaining stack keeps its relative order: the dead
                // window's entry is removed and everything below it moves
                // up one place
                &&& exists|p: int|
                    0 <= p < old(self).window_count && old(self).z_order@[p] == slot && (forall|a: int|
                        0 <= a < p ==> final(self).z_order@[a] == old(self).z_order@[a]) && (
                    forall|a: int|
                        p <= a < old(self).window_count - 1 ==> final(self).z_order@[a] == old(
                            self,
                        ).z_order@[a + 1])
            },
    {
        if slot >= MAX_WINDOWS {
            return false;
        }
        let window_id = match &self.windows[slot] {
            Some(w) => w.id,
            None => {
                return false;
            },
        };

        if !WmEventDispatcher::dispatch_destroy(window_id) {
            proof {
                assert(false);
            }
            return false;
        }

        // clear the focus if it was here
        let was_focused = match self.focused {
            Some(f) => f == slot,
            None => false,
        };
        if was_focused {
            WmEventDispatcher::dispatch_focus_change(Some(window_id), None);
            self.focused = None;
        }

        // remove from the z-order
        let mut pos: usize = 0;
        while pos < self.window_count && self.z_order[pos] != slot
            invariant
                pos <= self.window_count,
                self.window_count <= MAX_WINDOWS,
                self.z_order.len() == MAX_WINDOWS,
                self.z_order@ == old(self).z_order@,
                self.window_count == old(self).window_count,
                forall|j: int| 0 <= j < pos ==> self.z_order@[j] != slot,
            decreases self.window_count - pos,
        {
            pos += 1;
        }
        if pos < self.window_count {
            let ghost zpre = self.z_order@;
            let mut i: usize = pos;
            let count = self.window_count;
            while i + 1 < count
                invariant
                    pos <= i,
                    i < count,
                    count == old(self).window_count <= MAX_WINDOWS,
                    self.z_order.len() == MAX_WINDOWS,
                    self.windows@ == old(self).windows@,
                    self.window_count == old(self).window_count,
                    self.focused == (if was_focused {
                        Option::<usize>::None
                    } else {
                        old(self).focused
                    }),
                    self.dragging == old(self).dragging,
                    self.next_id == old(self).next_id,
                    self.screen_width == old(self).screen_width,
                    self.screen_height == old(self).screen_height,
                    self.mouse_x == old(self).mouse_x,
                    self.mouse_y == old(self).mouse_y,
                    self.mouse_buttons == old(self).mouse_buttons,
                    self.drag_offset == old(self).drag_offset,
                    self.cursor_save@ == old(self).cursor_save@,
                    self.cursor_save_x == old(self).cursor_save_x,
                    self.cursor_save_y == old(self).cursor_save_y,
                    self.terminal == old(self).terminal,
                    self.term_window_id == old(self).term_window_id,
                    self.hw_cursor == old(self).hw_cursor,
                    zpre == old(self).z_order@,
                    forall|j: int| 0 <= j < pos ==> self.z_order@[j] == zpre[j],
                    forall|j: int| pos <= j < i ==> self.z_order@[j] == zpre[j + 1],
                    forall|j: int| i <= j < MAX_WINDOWS ==> self.z_order@[j] == zpre[j],
                decreases count - i,
            {
                let v = self.z_order[i + 1];
                self.z_order.set(i, v);
                i += 1;
            }
            self.window_count = count - 1;
            proof {
                assert(zpre[pos as int] == slot);
                assert forall|a: int|
                    (pos as int) <= a < old(self).window_count - 1 implies self.z_order@[a] == old(
                    self,
                ).z_order@[a + 1] by {
                    assert(self.z_order@[a] == zpre[a + 1]);
                }
                assert forall|a: int|
                    0 <= a < (pos as int) implies self.z_order@[a] == old(self).z_order@[a] by {
                    assert(self.z_order@[a] == zpre[a]);
                }
            }
        } else {
            proof {
                // the z-order lists every occupied slot, so the window
                // must have been found
                assert(old(self).occupied(slot as int));
                let j = choose|j: int|
                    0 <= j < old(self).window_count && old(self).z_order@[j]
                        == (slot as int) as usize;
                assert(self.z_order@[j] == slot);
                assert(false);
            }
        }

        self.windows.set(slot, None);
        self.dirty = true;
        proof {
            let zpre = old(self).z_order@;
            let pos_i = pos as int;
            assert forall|a: int|
                0 <= a < self.window_count implies (#[trigger] self.z_order@[a]) < MAX_WINDOWS
                && self.occupied(self.z_order@[a] as int) by {
                if a < pos_i {
                    assert(self.z_order@[a] == zpre[a]);
                    assert(old(self).occupied(zpre[a] as int));
                    assert(zpre[a] != slot);
                } else {
                    assert(self.z_order@[a] == zpre[a + 1]);
                    assert(old(self).occupied(zpre[a + 1] as int));
                    assert(zpre[a + 1] != zpre[pos_i]);
                }
            }
            assert forall|a: int, b: int|
                0 <= a < b < self.window_count implies self.z_order@[a] != self.z_order@[b] by {
                let ai: int = if a < pos_i {
                    a
                } else {
                    a + 1
                };
                let bi: int = if b < pos_i {
                    b
                } else {
                    b + 1
                };
                assert(self.z_order@[a] == zpre[ai] && self.z_order@[b] == zpre[bi]);
                assert(old(self).z_order@[ai] != old(self).z_order@[bi]);
            }
            assert forall|i2: int, j2: int|
                0 <= i2 < j2 < MAX_WINDOWS && self.occupied(i2) && self.occupied(j2) implies
            self.win(i2).id != self.win(j2).id by {
                assert(old(self).occupied(i2) && old(self).occupied(j2));
            }
            assert forall|i2: int|
                #![trigger self.windows@[i2]]
                0 <= i2 < MAX_WINDOWS && self.occupied(i2) implies (self.win(i2).flags.focused
                <==> self.focused == Some(i2 as usize)) by {
                assert(old(self).occupied(i2));
                assert(old(self).win(i2).flags.focused <==> old(self).focused == Some(
                    i2 as usize,
                ));
            }
            assert forall|i2: int|
                0 <= i2 < MAX_WINDOWS && self.occupied(i2) implies exists|j: int|
                0 <= j < self.window_count && self.z_order@[j] == i2 as usize by {
                assert(old(self).occupied(i2));
                let j0 = choose|j0: int|
                    0 <= j0 < old(self).window_count && old(self).z_order@[j0] == i2 as usize;
                assert(j0 != pos_i);
                if j0 < pos_i {
                    assert(self.z_order@[j0] == zpre[j0]);
                } else {
                    assert(self.z_order@[j0 - 1] == zpre[j0]);
                }
            }
        }
        true
    }

    /// The topmost window in the z-order from position `i` on that
    /// contains the point, if any.
    pub open spec fn hit_from(&self, i: int, x: int, y: int) -> Option<usize>
        decreases self.window_count - i,
    {
        if i < 0 || i >= self.window_count {
            None
        } else {
            let slot = self.z_order@[i];
            if self.occupied(slot as int) && self.win(slot as int).spec_contains(x, y) {
                Some(slot)
            } else {
                self.hit_from(i + 1, x, y)
            }
        }
    }

    /// Whether z-order position `i` holds a window containing the mouse.
    fn hit_at(&self, i: usize) -> (r: bool)
        requires
            self.wf(),
            i < self.window_count,
        ensures
            r == (self.occupied(self.z_order@[i as int] as int) && self.win(
                self.z_order@[i as int] as int,
            ).spec_contains(self.mouse_x as int, self.mouse_y as int)),
    {
        let slot = self.z_order[i];
        match &self.windows[slot] {
            Some(window) => window.contains(self.mouse_x, self.mouse_y),
            None => false,
        }
    }

    /// Handle a mouse button press or release.
    ///
    /// A left press on a window focuses it (through the chain) and, when
    /// the press lands in the title bar, starts a drag recording the grab
    /// offset and the drag origin.  A left release completes any drag
    /// with a move event for audit.
    pub fn handle_mouse_button(&mut self, button: MouseButton, pressed: bool)
        requires
            old(self).wf(),
            old(self).slots_consistent(),
        ensures
            final(self).wf(),
            final(self).slots_consistent(),
            ({
                let bit: u8 = match button {
                    MouseButton::Left => 0x01,
                    MouseButton::Right => 0x02,
                    MouseButton::Middle => 0x04,
                };
                if pressed {
                    final(self).mouse_buttons == old(self).mouse_buttons | bit
                } else {
                    final(self).mouse_buttons == old(self).mouse_buttons & !bit
                }
            }),
            pressed && button == MouseButton::Left ==> match old(self).hit_from(
                0,
                old(self).mouse_x as int,
                old(self).mouse_y as int,
            ) {
                Some(slot) => {
                    &&& final(self).focused == Some(slot)
                    &&& final(self).win(slot as int).flags.focused
                    &&& (old(self).focused != Some(slot) ==> final(self).z_order@[0] == slot)
                    &&& (old(self).focused == Some(slot) ==> final(self).z_order@ == old(
                        self,
                    ).z_order@)
                    &&& (old(self).win(slot as int).spec_in_title_bar(
                        old(self).mouse_x as int,
                        old(self).mouse_y as int,
                    ) ==> {
                        &&& final(self).dragging == Some(slot)
                        &&& final(self).drag_offset.x == old(self).mouse_x - old(self).win(
                            slot as int,
                        ).bounds.x
                        &&& final(self).drag_offset.y == old(self).mouse_y - old(self).win(
                            slot as int,
                        ).bounds.y
                        &&& final(self).drag_start_x == old(self).win(slot as int).bounds.x
                        &&& final(self).drag_start_y == old(self).win(slot as int).bounds.y
                    })
                },
                None => final(self).focused == old(self).focused && final(self).dragging == old(
                    self,
                ).dragging,
            },
            !pressed && button == MouseButton::Left ==> final(self).dragging is None,
    {
        let bit: u8 = match button {
            MouseButton::Left => 0x01,
            MouseButton::Right => 0x02,
            MouseButton::Middle => 0x04,
        };

        if pressed {
            self.mouse_buttons = self.mouse_buttons | bit;
            proof {
                assert forall|i: int|
                    #![trigger self.windows@[i]]
                    0 <= i < MAX_WINDOWS && self.occupied(i) implies exists|j: int|
                    0 <= j < self.window_count && self.z_order@[j] == i as usize by {
                    assert(old(self).occupied(i));
                    let j = choose|j: int|
                        0 <= j < old(self).window_count && old(self).z_order@[j]
                            == i as usize;
                    assert(self.z_order@[j] == i as usize);
                }
            }

            if matches!(button, MouseButton::Left) {
                // find the clicked window, front to back
                let mut i: usize = 0;
                while i < self.window_count && !self.hit_at(i)
                    invariant
                        i <= self.window_count,
                        self.wf(),
                        self.slots_consistent(),
                        self.windows@ == old(self).windows@,
                        self.z_order@ == old(self).z_order@,
                        self.window_count == old(self).window_count,
                        self.focused == old(self).focused,
                        self.dragging == old(self).dragging,
                        self.mouse_x == old(self).mouse_x,
                        self.mouse_y == old(self).mouse_y,
                        old(self).hit_from(0, old(self).mouse_x as int, old(self).mouse_y as int)
                            == old(self).hit_from(
                            i as int,
                            old(self).mouse_x as int,
                            old(self).mouse_y as int,
                        ),
                    decreases self.window_count - i,
                {
                    proof {
                        let mx = old(self).mouse_x as int;
                        let my = old(self).mouse_y as int;
                        assert(old(self).hit_from(i as int, mx, my) == old(self).hit_from(
                            i as int + 1,
                            mx,
                            my,
                        ));
                    }
                    i += 1;
                }

                if i < self.window_count {
                    let slot = self.z_order[i];
                    proof {
                        assert(old(self).hit_from(
                            i as int,
                            old(self).mouse_x as int,
                            old(self).mouse_y as int,
                        ) == Some(slot));
                    }
                    let (in_title, win_x, win_y) = match &self.windows[slot] {
                        Some(window) => (
                            window.in_title_bar(self.mouse_x, self.mouse_y),
                            window.bounds.x,
                            window.bounds.y,
                        ),
                        None => (false, 0, 0),
                    };

                    let already = match self.focused {
                        Some(f) => f == slot,
                        None => false,
                    };
                    if !already {
                        proof {
                            let j = choose|j: int|
                                0 <= j < self.window_count && self.z_order@[j]
                                    == slot as usize;
                        }
                        self.focus_window(slot);
                    }

                    if in_title {
                        self.dragging = Some(slot);
                        self.drag_start_x = win_x;
                        self.drag_start_y = win_y;
                        self.drag_offset = Point {
                            x: self.mouse_x - win_x,
                            y: self.mouse_y - win_y,
                        };
                    }
                }
            }
        } else {
            self.mouse_buttons = self.mouse_buttons & !bit;

            if matches!(button, MouseButton::Left) {
                match self.dragging {
                    Some(slot) => {
                        let new_pos = match &self.windows[slot] {
                            Some(w) => Some((w.bounds.x, w.bounds.y)),
                            None => None,
                        };
                        match new_pos {
                            Some((new_x, new_y)) => {
                                self.complete_drag(slot, self.drag_start_x, self.drag_start_y,
                                    new_x, new_y);
                            },
                            None => {},
                        }
                    },
                    None => {},
                }
                self.dragging = None;
            }
        }
    }

    /// Dispatch the move-completion event when a drag ends, for audit.
    fn complete_drag(&mut self, slot: usize, old_x: i32, old_y: i32, new_x: i32, new_y: i32)
        requires
            old(self).wf(),
            old(self).occupied(slot as int),
        ensures
            final(self).wf(),
            *final(self) == *old(self),
    {
        let window_id = match &self.windows[slot] {
            Some(w) => w.id,
            None => 0,
        };
        WmEventDispatcher::dispatch_move(window_id, old_x, old_y, new_x, new_y);
    }

    /// Create the terminal window with its heap-allocated state.
    pub fn create_terminal_window(&mut self, x: i32, y: i32, w: u32, h: u32) -> (r: Option<u32>)
        requires
            old(self).wf(),
            old(self).slots_consistent(),
            -COORD_LIMIT <= x <= COORD_LIMIT,
            -COORD_LIMIT <= y <= COORD_LIMIT,
            w <= COORD_LIMIT,
            h <= COORD_LIMIT,
            old(self).next_id < 0xFFFFFFFF,
        ensures
            final(self).wf(),
            final(self).slots_consistent(),
            r is Some ==> final(self).terminal is Some && final(self).term_window_id == r,
            r is None ==> *final(self) == *old(self),
    {
        let id = match self.create_window("Terminal", x, y, w, h) {
            Some(id) => id,
            None => {
                return None;
            },
        };
        let ghost mid = *self;
        self.term_window_id = Some(id);
        self.terminal = Some(Terminal::new());
        proof {
            assert forall|i: int|
                #![trigger self.windows@[i]]
                0 <= i < MAX_WINDOWS && self.occupied(i) implies exists|j: int|
                0 <= j < self.window_count && self.z_order@[j] == i as usize by {
                assert(mid.occupied(i));
                let j = choose|j: int|
                    0 <= j < mid.window_count && mid.z_order@[j] == i as usize;
                assert(self.z_order@[j] == i as usize);
            }
        }
        Some(id)
    }

    /// Whether the focused window is the terminal.
    /// Where one drained key event goes: the focused terminal eats
    /// editing keys and printable characters; anywhere else only Enter
    /// does something, acting as a click on the focused window.
    pub open spec fn spec_route_key(
        terminal_focused: bool,
        keycode: crate::keyboard::KeyCode,
        ascii: Option<char>,
    ) -> KeyRoute {
        if terminal_focused {
            match keycode {
                crate::keyboard::KeyCode::Enter => KeyRoute::TermEnter,
                crate::keyboard::KeyCode::Backspace => KeyRoute::TermBackspace,
                _ => match ascii {
                    Some(c) => KeyRoute::TermChar(c),
                    None => KeyRoute::Ignored,
                },
            }
        } else {
            match keycode {
                crate::keyboard::KeyCode::Enter => KeyRoute::ClickFocused,
                _ => KeyRoute::Ignored,
            }
        }
    }

    /// Decide where a drained key event goes.
    pub fn route_key(
        terminal_focused: bool,
        keycode: crate::keyboard::KeyCode,
        ascii: Option<char>,
    ) -> (r: KeyRoute)
        ensures
            r == Desktop::spec_route_key(terminal_focused, keycode, ascii),
    {
        if terminal_focused {
            match keycode {
                crate::keyboard::KeyCode::Enter => KeyRoute::TermEnter,
                crate::keyboard::KeyCode::Backspace => KeyRoute::TermBackspace,
                _ => match ascii {
                    Some(c) => KeyRoute::TermChar(c),
                    None => KeyRoute::Ignored,
                },
            }
        } else {
            match keycode {
                crate::keyboard::KeyCode::Enter => KeyRoute::ClickFocused,
                _ => KeyRoute::Ignored,
            }
        }
    }

    pub fn is_terminal_focused(&self) -> (r: bool)
        requires
            self.wf(),
        ensures
            r ==> self.focused is Some && self.term_window_id is Some,
    {
        match (self.term_window_id, self.focused) {
            (Some(term_id), Some(focus_slot)) => {
                match &self.windows[focus_slot] {
                    Some(window) => window.id == term_id,
                    None => false,
                }
            },
            _ => false,
        }
    }

    /// Terminal key input.
    pub fn term_key_input(&mut self, c: char)
        requires
            old(self).wf(),
            match old(self).terminal {
                Some(t) => t.wf(),
                None => true,
            },
        ensures
            final(self).wf(),
            final(self).windows@ == old(self).windows@,
            final(self).window_count == old(self).window_count,
            match final(self).terminal {
                Some(t) => t.wf(),
                None => true,
            },
    {
        let term = self.terminal.take();
        match term {
            Some(mut t) => {
                t.key_input(c);
                self.terminal = Some(t);
                self.dirty = true;
            },
            None => {
                self.terminal = None;
            },
        }
    }

    /// Terminal backspace.
    pub fn term_backspace(&mut self)
        requires
            old(self).wf(),
            match old(self).terminal {
                Some(t) => t.wf(),
                None => true,
            },
        ensures
            final(self).wf(),
            final(self).windows@ == old(self).windows@,
            final(self).window_count == old(self).window_count,
            match final(self).terminal {
                Some(t) => t.wf(),
                None => true,
            },
    {
        let term = self.terminal.take();
        match term {
            Some(mut t) => {
                t.backspace();
                self.terminal = Some(t);
                self.dirty = true;
            },
            None => {
                self.terminal = None;
            },
        }
    }

    /// Terminal enter.
    pub fn term_enter(&mut self)
        requires
            old(self).wf(),
            match old(self).terminal {
                Some(t) => t.wf(),
                None => true,
            },
        ensures
            final(self).wf(),
            final(self).windows@ == old(self).windows@,
            final(self).window_count == old(self).window_count,
            match final(self).terminal {
                Some(t) => t.wf(),
                None => true,
            },
    {
        let term = self.terminal.take();
        match term {
            Some(mut t) => {
                t.enter();
                self.terminal = Some(t);
                self.dirty = true;
            },
            None => {
                self.terminal = None;
            },
        }
    }
}

impl Desktop {
    /// Save the 16x16 pixel block under the cursor from the front buffer;
    /// pixels off screen save as black.
    fn save_cursor_area(&mut self, fb: &Framebuffer)
        requires
            old(self).wf(),
            fb.wf(),
        ensures
            final(self).wf(),
            final(self).cursor_save_x == old(self).mouse_x,
            final(self).cursor_save_y == old(self).mouse_y,
            forall|cy: int, cx: int|
                0 <= cy < 16 && 0 <= cx < 16 ==> #[trigger] final(self).cursor_save@[cy * 16 + cx] == (
                match fb.spec_get_pixel(old(self).mouse_x + cx, old(self).mouse_y + cy) {
                    Some(c) => c,
                    None => Color { r: 0, g: 0, b: 0 },
                }),
            final(self).windows@ == old(self).windows@,
            final(self).z_order@ == old(self).z_order@,
            final(self).window_count == old(self).window_count,
            final(self).focused == old(self).focused,
            final(self).dirty == old(self).dirty,
            final(self).mouse_x == old(self).mouse_x,
            final(self).mouse_y == old(self).mouse_y,
            final(self).hw_cursor == old(self).hw_cursor,
    {
        let x = self.mouse_x;
        let y = self.mouse_y;

        let mut cy: usize = 0;
        while cy < 16
            invariant
                self.wf(),
                fb.wf(),
                cy <= 16,
                x == old(self).mouse_x,
                y == old(self).mouse_y,
                -8192 <= x <= 8192,
                -8192 <= y <= 8192,
                self.windows@ == old(self).windows@,
                self.z_order@ == old(self).z_order@,
                self.window_count == old(self).window_count,
                self.focused == old(self).focused,
                self.dirty == old(self).dirty,
                self.mouse_x == old(self).mouse_x,
                self.mouse_y == old(self).mouse_y,
                self.mouse_buttons == old(self).mouse_buttons,
                self.dragging == old(self).dragging,
                self.drag_offset == old(self).drag_offset,
                self.hw_cursor == old(self).hw_cursor,
                self.cursor_save_x == old(self).cursor_save_x,
                self.cursor_save_y == old(self).cursor_save_y,
                self.next_id == old(self).next_id,
                self.screen_width == old(self).screen_width,
                self.screen_height == old(self).screen_height,
                forall|qy: int, qx: int|
                    0 <= qy < cy && 0 <= qx < 16 ==> #[trigger] self.cursor_save@[qy * 16 + qx] == (
                    match fb.spec_get_pixel(x + qx, y + qy) {
                        Some(c) => c,
                        None => Color { r: 0, g: 0, b: 0 },
                    }),
            decreases 16 - cy,
        {
            let mut cx: usize = 0;
            while cx < 16
                invariant
                    self.wf(),
                    fb.wf(),
                    cy < 16,
                    cx <= 16,
                    x == old(self).mouse_x,
                    y == old(self).mouse_y,
                    -8192 <= x <= 8192,
                    -8192 <= y <= 8192,
                    self.windows@ == old(self).windows@,
                    self.z_order@ == old(self).z_order@,
                    self.window_count == old(self).window_count,
                    self.focused == old(self).focused,
                    self.dirty == old(self).dirty,
                    self.mouse_x == old(self).mouse_x,
                    self.mouse_y == old(self).mouse_y,
                    self.mouse_buttons == old(self).mouse_buttons,
                    self.dragging == old(self).dragging,
                    self.drag_offset == old(self).drag_offset,
                    self.hw_cursor == old(self).hw_cursor,
                    self.cursor_save_x == old(self).cursor_save_x,
                    self.cursor_save_y == old(self).cursor_save_y,
                    self.next_id == old(self).next_id,
                    self.screen_width == old(self).screen_width,
                    self.screen_height == old(self).screen_height,
                    forall|qy: int, qx: int|
                        0 <= qy < cy && 0 <= qx < 16 ==> #[trigger] self.cursor_save@[qy * 16 + qx] == (
                        match fb.spec_get_pixel(x + qx, y + qy) {
                            Some(c) => c,
                            None => Color { r: 0, g: 0, b: 0 },
                        }),
                    forall|qx: int|
                        0 <= qx < cx ==> #[trigger] self.cursor_save@[cy * 16 + qx] == (
                        match fb.spec_get_pixel(x + qx, y + cy as int) {
                            Some(c) => c,
                            None => Color { r: 0, g: 0, b: 0 },
                        }),
                decreases 16 - cx,
            {
                let px: i64 = (x as i64) + (cx as i64);
                let py: i64 = (y as i64) + (cy as i64);
                let c = match fb.get_pixel(px as i32, py as i32) {
                    Some(c) => c,
                    None => Color { r: 0, g: 0, b: 0 },
                };
                self.cursor_save.set(cy * 16 + cx, c);
                cx += 1;
            }
            cy += 1;
        }

        self.cursor_save_x = x;
        self.cursor_save_y = y;
    }

    /// Restore the saved 16x16 block to the front buffer at the saved
    /// position; a never-saved state (negative position) restores
    /// nothing, and nothing outside the block changes.
    fn restore_cursor_area(&self, fb: &mut Framebuffer)
        requires
            self.wf(),
            old(fb).wf(),
        ensures
            final(fb).wf(),
            final(fb).same_geometry(old(fb)),
            final(fb)@.len() == old(fb)@.len(),
            self.cursor_save_x < 0 ==> final(fb)@ == old(fb)@,
            self.cursor_save_x >= 0 ==> {
                &&& forall|cy: int, cx: int|
                    0 <= cy < 16 && 0 <= cx < 16 && old(fb).in_bounds(
                        self.cursor_save_x + cx,
                        self.cursor_save_y + cy,
                    ) ==> final(fb).pixel_is(
                        self.cursor_save_x + cx,
                        self.cursor_save_y + cy,
                        #[trigger] self.cursor_save@[cy * 16 + cx],
                    )
                &&& forall|k: int|
                    0 <= k < old(fb)@.len() && !old(fb).covers(
                        self.cursor_save_x as int,
                        self.cursor_save_y as int,
                        self.cursor_save_x + 16,
                        self.cursor_save_y + 16,
                        k,
                    ) ==> final(fb)@[k] == old(fb)@[k]
            },
    {
        if self.cursor_save_x < 0 {
            return ;
        }

        let x = self.cursor_save_x;
        let y = self.cursor_save_y;
        let ghost g0 = *old(fb);

        let mut cy: usize = 0;
        while cy < 16
            invariant
                self.wf(),
                fb.wf(),
                fb.same_geometry(&g0),
                fb@.len() == g0@.len(),
                cy <= 16,
                x == self.cursor_save_x,
                y == self.cursor_save_y,
                0 <= x <= 2100000,
                -2100000 <= y <= 2100000,
                forall|qy: int, qx: int|
                    0 <= qy < cy && 0 <= qx < 16 && g0.in_bounds(x + qx, y + qy) ==> fb.pixel_is(
                        x + qx,
                        y + qy,
                        #[trigger] self.cursor_save@[qy * 16 + qx],
                    ),
                forall|k: int|
                    0 <= k < g0@.len() && !g0.covers(x as int, y as int, x + 16, y + 16, k)
                        ==> fb@[k] == g0@[k],
            decreases 16 - cy,
        {
            let mut cx: usize = 0;
            while cx < 16
                invariant
                    self.wf(),
                    fb.wf(),
                    fb.same_geometry(&g0),
                    fb@.len() == g0@.len(),
                    cy < 16,
                    cx <= 16,
                    x == self.cursor_save_x,
                    y == self.cursor_save_y,
                    0 <= x <= 2100000,
                    -2100000 <= y <= 2100000,
                    forall|qy: int, qx: int|
                        0 <= qy < cy && 0 <= qx < 16 && g0.in_bounds(x + qx, y + qy)
                            ==> fb.pixel_is(x + qx, y + qy, #[trigger] self.cursor_save@[qy * 16
                            + qx]),
                    forall|qx: int|
                        0 <= qx < cx && g0.in_bounds(x + qx, y + cy as int) ==> fb.pixel_is(
                            x + qx,
                            y + cy as int,
                            #[trigger] self.cursor_save@[(cy as int) * 16 + qx],
                        ),
                    forall|k: int|
                        0 <= k < g0@.len() && !g0.covers(x as int, y as int, x + 16, y + 16, k)
                            ==> fb@[k] == g0@[k],
                decreases 16 - cx,
            {
                let px: i64 = (x as i64) + (cx as i64);
                let py: i64 = (y as i64) + (cy as i64);
                let ghost prev = *fb;
                let c = self.cursor_save[cy * 16 + cx];
                fb.set_pixel(px as i32, py as i32, c);
                proof {
                    crate::framebuffer::lemma_save_restore_step(&g0, &prev, fb, x as int,
                        y as int, cx as int, cy as int, self.cursor_save@);
                }
                cx += 1;
            }
            cy += 1;
        }
    }

    /// Save the block under the cursor and draw the arrow overlay on the
    /// front buffer; nothing outside the 16x16 block changes.
    fn draw_cursor(&mut self, fb: &mut Framebuffer)
        requires
            old(self).wf(),
            old(fb).wf(),
        ensures
            final(self).wf(),
            final(fb).wf(),
            final(fb).same_geometry(old(fb)),
            final(fb)@.len() == old(fb)@.len(),
            final(self).cursor_save_x == old(self).mouse_x,
            final(self).cursor_save_y == old(self).mouse_y,
            forall|cy: int, cx: int|
                0 <= cy < 16 && 0 <= cx < 16 ==> #[trigger] final(self).cursor_save@[cy * 16 + cx] == (
                match old(fb).spec_get_pixel(old(self).mouse_x + cx, old(self).mouse_y + cy) {
                    Some(c) => c,
                    None => Color { r: 0, g: 0, b: 0 },
                }),
            forall|k: int|
                0 <= k < old(fb)@.len() && !old(fb).covers(
                    old(self).mouse_x as int,
                    old(self).mouse_y as int,
                    old(self).mouse_x + 16,
                    old(self).mouse_y + 16,
                    k,
                ) ==> final(fb)@[k] == old(fb)@[k],
            final(self).windows@ == old(self).windows@,
            final(self).z_order@ == old(self).z_order@,
            final(self).window_count == old(self).window_count,
            final(self).focused == old(self).focused,
            final(self).dirty == old(self).dirty,
            final(self).mouse_x == old(self).mouse_x,
            final(self).mouse_y == old(self).mouse_y,
            final(self).hw_cursor == old(self).hw_cursor,
    {
        self.save_cursor_area(fb);

        let x = self.mouse_x;
        let y = self.mouse_y;
        let ghost g0 = *old(fb);

        let mut cy: usize = 0;
        while cy < 16
            invariant
                self.wf(),
                fb.wf(),
                fb.same_geometry(&g0),
                fb@.len() == g0@.len(),
                cy <= 16,
                x == old(self).mouse_x,
                y == old(self).mouse_y,
                -8192 <= x <= 8192,
                -8192 <= y <= 8192,
                forall|k: int|
                    0 <= k < g0@.len() && !g0.covers(x as int, y as int, x + 16, y + 16, k)
                        ==> fb@[k] == g0@[k],
            decreases 16 - cy,
        {
            let bitmap_row = cursor_bitmap_row(cy);
            let mask_row = cursor_mask_row(cy);

            let mut cx: usize = 0;
            while cx < 16
                invariant
                    self.wf(),
                    fb.wf(),
                    fb.same_geometry(&g0),
                    fb@.len() == g0@.len(),
                    cy < 16,
                    cx <= 16,
                    x == old(self).mouse_x,
                    y == old(self).mouse_y,
                    -8192 <= x <= 8192,
                    -8192 <= y <= 8192,
                    forall|k: int|
                        0 <= k < g0@.len() && !g0.covers(x as int, y as int, x + 16, y + 16, k)
                            ==> fb@[k] == g0@[k],
                decreases 16 - cx,
            {
                let bit = 15 - cx;
                let mask_bit = (mask_row >> (bit as u16)) & 1;
                let color_bit = (bitmap_row >> (bit as u16)) & 1;

                if mask_bit != 0 {
                    let color = if color_bit != 0 {
                        Color { r: 255, g: 255, b: 255 }
                    } else {
                        Color { r: 0, g: 0, b: 0 }
                    };
                    let ghost prev = *fb;
                    fb.set_pixel(x + cx as i32, y + cy as i32, color);
                    proof {
                        crate::framebuffer::lemma_write_in_region(&g0, &prev, fb, x as int,
                            y as int, x + 16, y + 16, x + cx as int, y + cy as int);
                    }
                }
                cx += 1;
            }
            cy += 1;
        }
    }

    /// Whether the frontmost z-order entry is a drawable visible window.
    pub open spec fn front_window_drawn(&self) -> bool {
        &&& self.window_count > 0
        &&& self.occupied(self.z_order@[0] as int)
        &&& self.win(self.z_order@[0] as int).flags.visible
        &&& self.win(self.z_order@[0] as int).bounds.width >= 2
        &&& self.win(self.z_order@[0] as int).bounds.height >= 1
    }

    /// Render the whole desktop into the back buffer: background, then
    /// every visible window back to front with its content.  An empty
    /// desktop leaves the whole screen in the background colour; with
    /// windows present, the frontmost one's top border row is on top of
    /// everything.
    fn render_to_back_buffer(&self, back_buffer: &mut Framebuffer)
        requires
            self.wf(),
            old(back_buffer).wf(),
        ensures
            final(back_buffer).wf(),
            final(back_buffer).same_geometry(old(back_buffer)),
            final(back_buffer)@.len() == old(back_buffer)@.len(),
            self.window_count == 0 ==> forall|px: int, py: int|
                old(back_buffer).in_bounds(px, py) ==> final(back_buffer).pixel_is(
                    px,
                    py,
                    crate::theme::spec_plan9().desktop_bg,
                ),
            self.front_window_drawn() ==> ({
                let fw = self.win(self.z_order@[0] as int);
                forall|px: int|
                    fw.bounds.x <= px < fw.bounds.x + fw.bounds.width && old(
                        back_buffer,
                    ).in_bounds(px, fw.bounds.y as int) ==> final(back_buffer).pixel_is(
                        px,
                        fw.bounds.y as int,
                        crate::theme::spec_plan9().border,
                    )
            }),
    {
        let theme = Theme::plan9();

        back_buffer.clear(theme.desktop_bg);

        let mut i: usize = self.window_count;
        while i > 0
            invariant
                self.wf(),
                back_buffer.wf(),
                back_buffer.same_geometry(old(back_buffer)),
                back_buffer@.len() == old(back_buffer)@.len(),
                i <= self.window_count,
                theme == crate::theme::spec_plan9(),
                self.window_count == 0 ==> forall|px: int, py: int|
                    old(back_buffer).in_bounds(px, py) ==> back_buffer.pixel_is(
                        px,
                        py,
                        crate::theme::spec_plan9().desktop_bg,
                    ),
                i == 0 && self.front_window_drawn() ==> ({
                    let fw = self.win(self.z_order@[0] as int);
                    forall|px: int|
                        fw.bounds.x <= px < fw.bounds.x + fw.bounds.width && old(
                            back_buffer,
                        ).in_bounds(px, fw.bounds.y as int) ==> back_buffer.pixel_is(
                            px,
                            fw.bounds.y as int,
                            crate::theme::spec_plan9().border,
                        )
                }),
            decreases i,
        {
            i -= 1;
            let slot = self.z_order[i];
            match &self.windows[slot] {
                Some(window) => {
                    if window.flags.visible && window.bounds.width >= 2 && window.bounds.height
                        >= 1 {
                        let ghost gpre = *back_buffer;
                        window.draw(back_buffer, &theme);
                        let ghost gmid = *back_buffer;
                        self.draw_window_content(back_buffer, window);
                        proof {
                            if i == 0 && self.front_window_drawn() {
                                let fw = self.win(self.z_order@[0] as int);
                                assert(*window == fw);
                                assert forall|px: int|
                                    fw.bounds.x <= px < fw.bounds.x + fw.bounds.width && old(
                                    back_buffer,
                                ).in_bounds(px, fw.bounds.y as int) implies
                                back_buffer.pixel_is(
                                    px,
                                    fw.bounds.y as int,
                                    crate::theme::spec_plan9().border,
                                ) by {
                                    assert(gpre.in_bounds(px, fw.bounds.y as int));
                                    assert(gmid.pixel_is(px, fw.bounds.y as int, theme.border));
                                    crate::framebuffer::lemma_pixel_preserved(&gpre, &gmid,
                                        back_buffer, 0, fw.bounds.y + TITLE_HEIGHT,
                                        gpre.width as int, gpre.height as int, px,
                                        fw.bounds.y as int, theme.border);
                                }
                            }
                        }
                    }
                },
                None => {},
            }
        }
        proof {
            if self.window_count > 0 && self.front_window_drawn() {
                assert(self.occupied(self.z_order@[0] as int));
            }
        }
    }

    /// Draw a window's content by its title.
    fn draw_window_content(&self, fb: &mut Framebuffer, window: &Window)
        requires
            self.wf(),
            old(fb).wf(),
            window.wf(),
        ensures
            final(fb).wf(),
            final(fb).same_geometry(old(fb)),
            final(fb)@.len() == old(fb)@.len(),
            forall|k: int|
                0 <= k < old(fb)@.len() && !old(fb).covers(
                    0,
                    window.bounds.y + TITLE_HEIGHT,
                    old(fb).width as int,
                    old(fb).height as int,
                    k,
                ) ==> final(fb)@[k] == old(fb)@[k],
    {
        if str_contains(window.title(), "Welcome") {
            self.draw_welcome_content(fb, window);
        } else if str_contains(window.title(), "Terminal") {
            self.draw_terminal_content(fb, window);
        } else if str_contains(window.title(), "Files") {
            self.draw_files_content(fb, window);
        }
    }

    /// Draw the welcome window's content.
    fn draw_welcome_content(&self, fb: &mut Framebuffer, window: &Window)
        requires
            self.wf(),
            old(fb).wf(),
            window.wf(),
        ensures
            final(fb).wf(),
            final(fb).same_geometry(old(fb)),
            final(fb)@.len() == old(fb)@.len(),
            forall|k: int|
                0 <= k < old(fb)@.len() && !old(fb).covers(
                    0,
                    window.bounds.y + TITLE_HEIGHT,
                    old(fb).width as int,
                    old(fb).height as int,
                    k,
                ) ==> final(fb)@[k] == old(fb)@[k],
    {
        let theme = Theme::plan9();
        let ghost g0 = *old(fb);
        let ghost ytop = window.bounds.y + TITLE_HEIGHT;
        window.draw_text(fb, 8, 8, "Welcome to Rustacean OS!", theme.text, &theme);
        proof {
            crate::framebuffer::lemma_band_frame_band(&g0, &g0, fb, ytop + 8, ytop);
        }
        let ghost g1 = *fb;
        window.draw_text(fb, 8, 28, "A Plan 9 inspired OS written in Rust", theme.text, &theme);
        proof {
            crate::framebuffer::lemma_band_frame_band(&g0, &g1, fb, ytop + 28, ytop);
        }
        let ghost g2 = *fb;
        window.draw_text(fb, 8, 56, "Drag windows by title bar!", theme.text, &theme);
        proof {
            crate::framebuffer::lemma_band_frame_band(&g0, &g2, fb, ytop + 56, ytop);
        }
        let ghost g3 = *fb;
        window.draw_text(fb, 8, 76, "Click windows to focus.", theme.text, &theme);
        proof {
            crate::framebuffer::lemma_band_frame_band(&g0, &g3, fb, ytop + 76, ytop);
        }
    }

    /// Draw the terminal window's content from the heap-allocated state.
    fn draw_terminal_content(&self, fb: &mut Framebuffer, window: &Window)
        requires
            self.wf(),
            old(fb).wf(),
            window.wf(),
        ensures
            final(fb).wf(),
            final(fb).same_geometry(old(fb)),
            final(fb)@.len() == old(fb)@.len(),
            forall|k: int|
                0 <= k < old(fb)@.len() && !old(fb).covers(
                    0,
                    window.bounds.y + TITLE_HEIGHT,
                    old(fb).width as int,
                    old(fb).height as int,
                    k,
                ) ==> final(fb)@[k] == old(fb)@[k],
    {
        let ghost g0 = *old(fb);
        let ghost ytop = window.bounds.y + TITLE_HEIGHT;
        let content = window.content_rect_abs();
        let bg = Color { r: 20, g: 20, b: 30 };
        fb.fill_rect(content.x, content.y, content.width, content.height, bg);
        proof {
            crate::framebuffer::lemma_band_frame_rect(&g0, &g0, fb, content.x as int,
                content.y as int, content.x + content.width, content.y + content.height, ytop);
        }

        let green = Color { r: 0, g: 255, b: 100 };
        let prompt_color = Color { r: 100, g: 200, b: 255 };

        match &self.terminal {
            Some(term) => {
                proof {
                    assert(term.wf());
                    assert(term.lines_model().len() <= 8);
                }
                let lines = term.lines();
                let n = lines.len();
                let mut i: usize = 0;
                while i < n
                    invariant
                        self.wf(),
                        fb.wf(),
                        fb.same_geometry(old(fb)),
                        fb@.len() == old(fb)@.len(),
                        window.wf(),
                        i <= n,
                        n <= 8,
                        n == lines@.len(),
                        g0 == *old(fb),
                        ytop == window.bounds.y + TITLE_HEIGHT,
                        forall|k: int|
                            0 <= k < g0@.len() && !g0.covers(0, ytop, g0.width as int,
                            g0.height as int, k) ==> fb@[k] == g0@[k],
                    decreases n - i,
                {
                    let ghost gp = *fb;
                    window.draw_text_color(fb, 8, 8 + (i as i32) * 16, lines[i].as_str(), green,
                        bg);
                    proof {
                        crate::framebuffer::lemma_band_frame_band(&g0, &gp, fb, ytop + 8 + 16 * (
                        i as int), ytop);
                    }
                    i += 1;
                }

                let input_y = 8 + (n as i32) * 16;
                let ghost ga = *fb;
                window.draw_text_color(fb, 8, input_y, "> ", prompt_color, bg);
                proof {
                    crate::framebuffer::lemma_band_frame_band(&g0, &ga, fb, ytop + input_y, ytop);
                }
                let ghost gb = *fb;
                window.draw_text_color(fb, 24, input_y, term.input(), green, bg);
                proof {
                    crate::framebuffer::lemma_band_frame_band(&g0, &gb, fb, ytop + input_y, ytop);
                }
                let cursor_col = 24 + (term.input_chars() as i32) * 8;
                let ghost gc = *fb;
                window.draw_text_color(fb, cursor_col, input_y, "_", green, bg);
                proof {
                    crate::framebuffer::lemma_band_frame_band(&g0, &gc, fb, ytop + input_y, ytop);
                }
            },
            None => {
                let ghost ga = *fb;
                window.draw_text_color(fb, 8, 8, "Terminal not initialized", green, bg);
                proof {
                    crate::framebuffer::lemma_band_frame_band(&g0, &ga, fb, ytop + 8, ytop);
                }
            },
        }
    }

    /// Draw the file-browser window's content.
    fn draw_files_content(&self, fb: &mut Framebuffer, window: &Window)
        requires
            self.wf(),
            old(fb).wf(),
            window.wf(),
        ensures
            final(fb).wf(),
            final(fb).same_geometry(old(fb)),
            final(fb)@.len() == old(fb)@.len(),
            forall|k: int|
                0 <= k < old(fb)@.len() && !old(fb).covers(
                    0,
                    window.bounds.y + TITLE_HEIGHT,
                    old(fb).width as int,
                    old(fb).height as int,
                    k,
                ) ==> final(fb)@[k] == old(fb)@[k],
    {
        let theme = Theme::plan9();
        let folder = Color { r: 255, g: 200, b: 100 };
        let ghost g0 = *old(fb);
        let ghost ytop = window.bounds.y + TITLE_HEIGHT;

        window.draw_text(fb, 8, 8, "/home/user", theme.text, &theme);
        proof {
            crate::framebuffer::lemma_band_frame_band(&g0, &g0, fb, ytop + 8, ytop);
        }
        let ghost g1 = *fb;
        window.draw_text(fb, 8, 28, "----------------", theme.text, &theme);
        proof {
            crate::framebuffer::lemma_band_frame_band(&g0, &g1, fb, ytop + 28, ytop);
        }
        let ghost g2 = *fb;
        window.draw_text_color(fb, 8, 48, "[dir]  Documents", folder, theme.window_bg);
        proof {
            crate::framebuffer::lemma_band_frame_band(&g0, &g2, fb, ytop + 48, ytop);
        }
        let ghost g3 = *fb;
        window.draw_text_color(fb, 8, 68, "[dir]  Projects", folder, theme.window_bg);
        proof {
            crate::framebuffer::lemma_band_frame_band(&g0, &g3, fb, ytop + 68, ytop);
        }
        let ghost g4 = *fb;
        window.draw_text_color(fb, 8, 88, "[dir]  Downloads", folder, theme.window_bg);
        proof {
            crate::framebuffer::lemma_band_frame_band(&g0, &g4, fb, ytop + 88, ytop);
        }
        let ghost g5 = *fb;
        window.draw_text(fb, 8, 108, "[txt]  notes.txt", theme.text, &theme);
        proof {
            crate::framebuffer::lemma_band_frame_band(&g0, &g5, fb, ytop + 108, ytop);
        }
        let ghost g6 = *fb;
        window.draw_text(fb, 8, 128, "[rs]   main.rs", theme.text, &theme);
        proof {
            crate::framebuffer::lemma_band_frame_band(&g0, &g6, fb, ytop + 128, ytop);
        }
        let ghost g7 = *fb;
        window.draw_text(fb, 8, 148, "[toml] Cargo.toml", theme.text, &theme);
        proof {
            crate::framebuffer::lemma_band_frame_band(&g0, &g7, fb, ytop + 148, ytop);
        }
    }

    /// One compositor frame: double-buffered window painting with a
    /// direct-to-front software cursor.
    ///
    /// First the block saved under the old cursor position is written
    /// back; then, when the desktop is dirty, the whole scene is
    /// re-rendered into the back buffer and copied to the front; last the
    /// block under the new cursor position is saved and the arrow drawn
    /// over it.  With a hardware cursor only the dirty re-render happens.
    ///
    /// When nothing changed since the previous frame (not dirty, cursor
    /// still where the last save was made), the front buffer outside the
    /// cursor block keeps every byte, and at 24 or 32 bpp the saved block
    /// itself is reproduced exactly.
    pub fn draw(&mut self, back_buffer: &mut Framebuffer, front_buffer: &mut Framebuffer)
        requires
            old(self).wf(),
            old(back_buffer).wf(),
            old(front_buffer).wf(),
        ensures
            final(self).wf(),
            final(back_buffer).wf(),
            final(front_buffer).wf(),
            final(front_buffer).same_geometry(old(front_buffer)),
            final(back_buffer).same_geometry(old(back_buffer)),
            !final(self).dirty,
            final(self).windows@ == old(self).windows@,
            final(self).window_count == old(self).window_count,
            final(self).focused == old(self).focused,
            final(self).mouse_x == old(self).mouse_x,
            final(self).mouse_y == old(self).mouse_y,
            !old(self).hw_cursor ==> final(self).cursor_save_x == old(self).mouse_x
                && final(self).cursor_save_y == old(self).mouse_y,
            final(self).hw_cursor == old(self).hw_cursor,
            final(self).cursor_save@.len() == 256,
            // a dirty frame re-renders the scene into the back buffer:
            // an empty desktop leaves it all background, and the
            // frontmost window's top border row sits on top
            old(self).dirty ==> {
                &&& (old(self).window_count == 0 ==> forall|px: int, py: int|
                    old(back_buffer).in_bounds(px, py) ==> final(back_buffer).pixel_is(
                        px,
                        py,
                        crate::theme::spec_plan9().desktop_bg,
                    ))
                &&& (old(self).front_window_drawn() ==> ({
                    let fw = old(self).win(old(self).z_order@[0] as int);
                    forall|px: int|
                        fw.bounds.x <= px < fw.bounds.x + fw.bounds.width && old(
                            back_buffer,
                        ).in_bounds(px, fw.bounds.y as int) ==> final(back_buffer).pixel_is(
                            px,
                            fw.bounds.y as int,
                            crate::theme::spec_plan9().border,
                        )
                }))
            },
            // the freshly rendered frame is presented: the front buffer
            // equals the back buffer, up to the software cursor block
            old(self).dirty && old(back_buffer).same_geometry(old(front_buffer)) && old(
                self,
            ).hw_cursor ==> final(front_buffer)@ == final(back_buffer)@,
            old(self).dirty && old(back_buffer).same_geometry(old(front_buffer)) && !old(
                self,
            ).hw_cursor ==> {
                &&& forall|k: int|
                    0 <= k < old(front_buffer)@.len() && !old(front_buffer).covers(
                        old(self).mouse_x as int,
                        old(self).mouse_y as int,
                        old(self).mouse_x + 16,
                        old(self).mouse_y + 16,
                        k,
                    ) ==> final(front_buffer)@[k] == final(back_buffer)@[k]
                &&& forall|cy: int, cx: int|
                    0 <= cy < 16 && 0 <= cx < 16 ==> #[trigger] final(self).cursor_save@[cy * 16
                        + cx] == (match final(back_buffer).spec_get_pixel(
                        old(self).mouse_x + cx,
                        old(self).mouse_y + cy,
                    ) {
                        Some(c) => c,
                        None => Color { r: 0, g: 0, b: 0 },
                    })
            },
            // a still frame: nothing dirty, cursor where it was saved
            !old(self).hw_cursor && !old(self).dirty && old(self).cursor_save_x == old(
                self,
            ).mouse_x && old(self).cursor_save_y == old(self).mouse_y ==> {
                &&& *final(back_buffer) == *old(back_buffer)
                &&& forall|k: int|
                    0 <= k < old(front_buffer)@.len() && !old(front_buffer).covers(
                        old(self).mouse_x as int,
                        old(self).mouse_y as int,
                        old(self).mouse_x + 16,
                        old(self).mouse_y + 16,
                        k,
                    ) ==> final(front_buffer)@[k] == old(front_buffer)@[k]
                &&& (old(front_buffer).bpp == 3 || old(front_buffer).bpp == 4) ==> forall|
                    cy: int,
                    cx: int,
                |
                    0 <= cy < 16 && 0 <= cx < 16 && old(front_buffer).in_bounds(
                        old(self).mouse_x + cx,
                        old(self).mouse_y + cy,
                    ) ==> #[trigger] final(self).cursor_save@[cy * 16 + cx] == old(
                        self,
                    ).cursor_save@[cy * 16 + cx]
            },
    {
        let ghost f0 = *old(front_buffer);
        // restore the old cursor area (software cursor only)
        if !self.hw_cursor {
            self.restore_cursor_area(front_buffer);
        }

        // re-render when the scene changed
        let ghost was_dirty = self.dirty;
        if self.dirty {
            self.render_to_back_buffer(back_buffer);
            front_buffer.copy_from(back_buffer);
            self.dirty = false;
        }
        let ghost bren = *back_buffer;
        proof {
            if was_dirty && old(back_buffer).same_geometry(old(front_buffer)) {
                assert(front_buffer@ == back_buffer@);
            }
        }

        let ghost fmid = *front_buffer;
        // draw the cursor over the fresh frame (software cursor only)
        if !self.hw_cursor {
            self.draw_cursor(front_buffer);
            proof {
                if was_dirty && old(back_buffer).same_geometry(old(front_buffer)) {
                    let mx = old(self).mouse_x as int;
                    let my = old(self).mouse_y as int;
                    assert forall|k: int|
                        0 <= k < f0@.len() && !f0.covers(mx, my, mx + 16, my + 16, k) implies
                    front_buffer@[k] == bren@[k] by {
                        assert(!fmid.covers(mx, my, mx + 16, my + 16, k)) by {
                            if fmid.covers(mx, my, mx + 16, my + 16, k) {
                                let (px, py) = choose|px: int, py: int|
                                    mx <= px < mx + 16 && my <= py < my + 16 && fmid.in_bounds(
                                        px,
                                        py,
                                    ) && fmid.off(px, py) <= k < fmid.off(px, py) + fmid.bpp;
                                assert(f0.in_bounds(px, py) && f0.off(px, py) <= k < f0.off(
                                    px,
                                    py,
                                ) + f0.bpp);
                                assert(f0.covers(mx, my, mx + 16, my + 16, k));
                            }
                        }
                        assert(front_buffer@[k] == fmid@[k]);
                        assert(fmid@[k] == bren@[k]);
                    }
                    assert forall|cy: int, cx: int|
                        0 <= cy < 16 && 0 <= cx < 16 implies #[trigger] self.cursor_save@[cy * 16
                        + cx] == (match bren.spec_get_pixel(mx + cx, my + cy) {
                        Some(c) => c,
                        None => Color { r: 0, g: 0, b: 0 },
                    }) by {
                        assert(self.cursor_save@[cy * 16 + cx] == (
                        match fmid.spec_get_pixel(mx + cx, my + cy) {
                            Some(c) => c,
                            None => Color { r: 0, g: 0, b: 0 },
                        }));
                        assert(fmid.spec_get_pixel(mx + cx, my + cy) == bren.spec_get_pixel(
                            mx + cx,
                            my + cy,
                        ));
                    }
                }
                if !old(self).dirty && old(self).cursor_save_x == old(self).mouse_x && old(
                    self,
                ).cursor_save_y == old(self).mouse_y {
                    let mx = old(self).mouse_x as int;
                    let my = old(self).mouse_y as int;
                    assert forall|k: int|
                        0 <= k < f0@.len() && !f0.covers(mx, my, mx + 16, my + 16, k) implies
                    front_buffer@[k] == f0@[k] by {
                        assert(fmid@[k] == f0@[k]);
                        assert(!fmid.covers(mx, my, mx + 16, my + 16, k)) by {
                            if fmid.covers(mx, my, mx + 16, my + 16, k) {
                                let (px, py) = choose|px: int, py: int|
                                    mx <= px < mx + 16 && my <= py < my + 16 && fmid.in_bounds(
                                        px,
                                        py,
                                    ) && fmid.off(px, py) <= k < fmid.off(px, py) + fmid.bpp;
                                assert(f0.in_bounds(px, py) && f0.off(px, py) <= k < f0.off(
                                    px,
                                    py,
                                ) + f0.bpp);
                                assert(f0.covers(mx, my, mx + 16, my + 16, k));
                            }
                        }
                        assert(front_buffer@[k] == fmid@[k]);
                    }
                    if f0.bpp == 3 || f0.bpp == 4 {
                        assert forall|cy: int, cx: int|
                            0 <= cy < 16 && 0 <= cx < 16 && f0.in_bounds(mx + cx, my + cy) implies
                        #[trigger] self.cursor_save@[cy * 16 + cx] == old(self).cursor_save@[cy
                            * 16 + cx] by {
                            let c = old(self).cursor_save@[cy * 16 + cx];
                            assert(fmid.pixel_is(mx + cx, my + cy, c));
                            crate::framebuffer::lemma_decode_encode(&fmid, mx + cx, my + cy, c);
                            assert(fmid.spec_get_pixel(mx + cx, my + cy) == Some(c));
                        }
                    }
                }
            }
        }
    }
}

/// Whether `needle` occurs as a contiguous part of `hay`.
pub open spec fn spec_str_contains(hay: Seq<char>, needle: Seq<char>) -> bool {
    exists|o: int|
        0 <= o <= hay.len() - needle.len() && #[trigger] hay.subrange(o, o + needle.len())
            =~= needle
}

/// Substring search, character by character.
pub fn str_contains(hay: &str, needle: &str) -> (r: bool)
    ensures
        r == spec_str_contains(hay@, needle@),
{
    let h = hay.unicode_len();
    let n = needle.unicode_len();
    if n > h {
        proof {
            assert(!spec_str_contains(hay@, needle@));
        }
        return false;
    }
    let mut o: usize = 0;
    while o <= h - n
        invariant
            n <= h,
            h == hay@.len(),
            n == needle@.len(),
            o <= h - n + 1,
            forall|q: int|
                0 <= q < o ==> !(#[trigger] hay@.subrange(q, q + needle@.len()) =~= needle@),
        decreases h - n + 1 - o,
    {
        let mut j: usize = 0;
        while j < n && hay.get_char(o + j) == needle.get_char(j)
            invariant
                n <= h,
                h == hay@.len(),
                n == needle@.len(),
                o + n <= h,
                j <= n,
                forall|q: int| 0 <= q < j ==> hay@[o + q] == needle@[q],
            decreases n - j,
        {
            j += 1;
        }
        if j == n {
            proof {
                assert(hay@.subrange(o as int, o + needle@.len()) =~= needle@);
            }
            return true;
        }
        proof {
            assert(hay@[o + j] != needle@[j as int]);
            assert(hay@.subrange(o as int, o + needle@.len())[j as int] == hay@[o + j]);
            assert(!(hay@.subrange(o as int, o + needle@.len()) =~= needle@));
        }
        o += 1;
    }
    proof {
        assert forall|q: int|
            0 <= q <= hay@.len() - needle@.len() implies !(#[trigger] hay@.subrange(
            q,
            q + needle@.len(),
        ) =~= needle@) by {
        }
        assert(!spec_str_contains(hay@, needle@));
    }
    false
}

impl Terminal {
    /// The input length, in characters.
    pub fn input_chars(&self) -> (r: usize)
        requires
            self.wf(),
        ensures
            r == self.input_model().len(),
    {
        self.input.unicode_len()
    }
}

/// Clamp a coordinate into the window coordinate range.
fn clamp_coord(v: i64) -> (r: i32)
    ensures
        r == crate::mouse::spec_clamp(v as int, -COORD_LIMIT as int, COORD_LIMIT as int),
{
    if v < -(COORD_LIMIT as i64) {
        -COORD_LIMIT
    } else if v > COORD_LIMIT as i64 {
        COORD_LIMIT
    } else {
        v as i32
    }
}

} // verus!
