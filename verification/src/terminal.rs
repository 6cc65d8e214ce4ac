//! Terminal tabs: which tab has the focus, the mouse selection on the
//! visible screen, scrolling back, and the bytes a key sends to the shell.
use vstd::prelude::*;

use crate::keys::{Key, KeyPress};
use crate::text::{from_chars, to_chars};
use vstd::string::StrSliceExecFns;
use vstd::utf8::encode_utf8;

verus! {

/// Rows above the terminal view (the tab bar).
pub const HEADER_HEIGHT: u16 = 3;

/// Rows below the terminal view (the key help).
pub const TERMINAL_FOOTER_HEIGHT: u16 = 2;

/// Lines one scroll step moves back.
pub const TERMINAL_SCROLL_STEP: i16 = 3;

/// The same step forward.
pub const TERMINAL_SCROLL_STEP_FORWARD: i16 = -3;

/// Lines of scrollback a terminal keeps.
pub const TERMINAL_SCROLLBACK_LINES: usize = 2000;

/// The open terminal tabs and the focus. Position 0 is the connections
/// view; position `k > 0` is the tab at index `k - 1`.
pub struct TerminalTabs<T> {
    pub tabs: Vec<T>,
    pub active: usize,
}

/// The tabs that remain when the indices are removed one by one, the last
/// index first.
pub open spec fn removed_from_back<T>(s: Seq<T>, indices: Seq<usize>) -> Seq<T>
    decreases indices.len(),
{
    if indices.len() == 0 {
        s
    } else {
        removed_from_back(s.remove(indices.last() as int), indices.drop_last())
    }
}

/// Every removal, the last index first, names a tab that is still there.
pub open spec fn removals_fit(len: nat, indices: Seq<usize>) -> bool
    decreases indices.len(),
{
    indices.len() == 0 || (indices.last() < len && len > 0 && removals_fit(
        (len - 1) as nat,
        indices.drop_last(),
    ))
}

/// The focus once the number of tabs has become `len`.
pub open spec fn clamped_focus(active: nat, len: nat) -> nat {
    if len == 0 {
        0
    } else if active > len {
        len
    } else {
        active
    }
}

/// The focus after moving to the next position among the connections
/// view and `len` tabs.
pub open spec fn cycled_focus(active: nat, len: nat) -> nat {
    if len == 0 {
        0
    } else {
        ((active + 1) % (len + 1)) as nat
    }
}

/// The focus after moving to the previous position.
pub open spec fn cycled_back_focus(active: nat, len: nat) -> nat {
    if len == 0 {
        0
    } else if active == 0 {
        len
    } else {
        (active - 1) as nat
    }
}

impl<T> TerminalTabs<T> {
    /// The focus names the connections view or an open tab.
    pub open spec fn wf(&self) -> bool {
        self.active <= self.tabs.len()
    }

    /// No tabs, focus on the connections view.
    pub fn new() -> (r: Self)
        ensures
            r.wf(),
            r.tabs@.len() == 0,
            r.active == 0,
    {
        TerminalTabs { tabs: Vec::new(), active: 0 }
    }

    /// Whether any tab is open.
    pub fn is_open(&self) -> (r: bool)
        ensures
            r == (self.tabs@.len() > 0),
    {
        self.tabs.len() > 0
    }

    /// Adds a tab and gives it the focus.
    pub fn open(&mut self, tab: T)
        ensures
            final(self).tabs@ == old(self).tabs@.push(tab),
            final(self).active == final(self).tabs@.len(),
            final(self).wf(),
    {
        self.tabs.push(tab);
        self.active = self.tabs.len();
    }

    /// The index of the tab that scrolling acts on: the focused tab, or the
    /// first one while the connections view has the focus.
    pub fn focus_index(&self) -> (r: Option<usize>)
        ensures
            r == (if (if self.active == 0 { 0 } else { self.active - 1 }) < self.tabs@.len() {
                Some((if self.active == 0 { 0 } else { self.active - 1 }) as usize)
            } else {
                None
            }),
    {
        let index = if self.active == 0 { 0 } else { self.active - 1 };
        if index < self.tabs.len() { Some(index) } else { None }
    }

    /// Moves the focus to the next position, wrapping around to the
    /// connections view.
    pub fn cycle(&mut self)
        requires
            old(self).wf(),
        ensures
            final(self).wf(),
            final(self).tabs == old(self).tabs,
            final(self).active == cycled_focus(old(self).active as nat, old(self).tabs@.len()),
    {
        if self.tabs.len() == 0 {
            self.active = 0;
            return;
        }
        if self.active >= self.tabs.len() {
            proof {
                vstd::arithmetic::div_mod::lemma_mod_self_0((self.tabs@.len() + 1) as int);
            }
            self.active = 0;
        } else {
            proof {
                vstd::arithmetic::div_mod::lemma_small_mod(
                    (self.active + 1) as nat,
                    (self.tabs@.len() + 1) as nat,
                );
            }
            self.active = self.active + 1;
        }
    }

    /// Moves the focus to the previous position, wrapping around to the
    /// last tab.
    pub fn cycle_back(&mut self)
        requires
            old(self).wf(),
        ensures
            final(self).wf(),
            final(self).tabs == old(self).tabs,
            final(self).active == cycled_back_focus(old(self).active as nat, old(self).tabs@.len()),
    {
        if self.tabs.len() == 0 {
            self.active = 0;
            return;
        }
        if self.active == 0 {
            self.active = self.tabs.len();
        } else {
            self.active = self.active - 1;
        }
    }

    /// Closes the focused tab and hands it back; nothing happens while the
    /// connections view has the focus.
    pub fn close_active(&mut self) -> (closed: Option<T>)
        requires
            old(self).wf(),
        ensures
            final(self).wf(),
            old(self).active == 0 ==> closed is None && final(self).tabs == old(self).tabs
                && final(self).active == 0,
            old(self).active > 0 ==> closed == Some(old(self).tabs@[old(self).active - 1])
                && final(self).tabs@ == old(self).tabs@.remove(old(self).active - 1)
                && final(self).active == clamped_focus(
                old(self).active as nat,
                final(self).tabs@.len(),
            ),
    {
        if self.active == 0 {
            return None;
        }
        let index = self.active - 1;
        let tab = self.tabs.remove(index);
        if self.tabs.len() == 0 {
            self.active = 0;
        } else if self.active > self.tabs.len() {
            self.active = self.tabs.len();
        }
        Some(tab)
    }

    /// Removes the tabs whose sessions ended, the last index first, and
    /// keeps the focus on a position that exists.
    pub fn remove_closed(&mut self, closed: &Vec<usize>)
        requires
            removals_fit(old(self).tabs@.len(), closed@),
        ensures
            final(self).tabs@ == removed_from_back(old(self).tabs@, closed@),
            final(self).active == clamped_focus(old(self).active as nat, final(self).tabs@.len()),
            final(self).wf(),
    {
        let mut k = closed.len();
        assert(closed@.subrange(0, k as int) =~= closed@);
        while k > 0
            invariant
                k <= closed@.len(),
                removals_fit(self.tabs@.len(), closed@.subrange(0, k as int)),
                removed_from_back(self.tabs@, closed@.subrange(0, k as int)) == removed_from_back(
                    old(self).tabs@,
                    closed@,
                ),
                self.active == old(self).active,
            decreases k,
        {
            let ghost before = self.tabs@;
            let ghost prefix = closed@.subrange(0, k as int);
            assert(prefix.drop_last() =~= closed@.subrange(0, k - 1));
            assert(prefix.last() == closed@[k - 1]);
            k = k - 1;
            let index = closed[k];
            self.tabs.remove(index);
            assert(self.tabs@ == before.remove(index as int));
        }
        assert(closed@.subrange(0, closed@.len() as int) =~= closed@);
        if self.tabs.len() == 0 {
            self.active = 0;
        } else if self.active > self.tabs.len() {
            self.active = self.tabs.len();
        }
    }
}

/// A span of screen cells given by its first and last position.
#[derive(Debug, Clone, Copy, PartialEq, Eq, Structural)]
pub struct SelectionRange {
    pub start_row: u16,
    pub start_col: u16,
    pub end_row: u16,
    pub end_col: u16,
}

/// Whether cell `a` comes no later than cell `b`, row first.
pub open spec fn cell_le(a: (u16, u16), b: (u16, u16)) -> bool {
    a.0 < b.0 || (a.0 == b.0 && a.1 <= b.1)
}

/// The range from the earlier of two cells to the later one.
pub open spec fn ordered_range(a: (u16, u16), b: (u16, u16)) -> SelectionRange {
    if cell_le(a, b) {
        SelectionRange { start_row: a.0, start_col: a.1, end_row: b.0, end_col: b.1 }
    } else {
        SelectionRange { start_row: b.0, start_col: b.1, end_row: a.0, end_col: a.1 }
    }
}

/// The selection the mouse made on a tab, and whether the button is held.
#[derive(Debug, Clone, Copy)]
pub struct TabSelection {
    pub selection_start: Option<(u16, u16)>,
    pub selection_end: Option<(u16, u16)>,
    pub selecting: bool,
}

/// What a mouse event asks of the terminal.
#[derive(Debug, Clone, Copy, PartialEq, Eq, Structural)]
pub enum MouseKind {
    ScrollUp,
    ScrollDown,
    LeftDown,
    LeftDrag,
    LeftUp,
    Other,
}

/// What the caller does after a mouse event.
#[derive(Debug, Clone, Copy, PartialEq, Eq, Structural)]
pub enum MouseOutcome {
    /// The event was not for the terminal view.
    Unhandled,
    /// Scroll back by this many lines (forward where negative).
    Scroll(i16),
    /// The selection changed.
    Handled,
}

/// The screen row a mouse row falls on, for a window `rows` high.
pub open spec fn view_row(row: u16, rows: u16) -> u16 {
    let view_rows = rows - HEADER_HEIGHT - TERMINAL_FOOTER_HEIGHT;
    if row - HEADER_HEIGHT < view_rows - 1 {
        (row - HEADER_HEIGHT) as u16
    } else {
        (view_rows - 1) as u16
    }
}

/// The screen column a mouse column falls on, for a window `cols` wide.
pub open spec fn view_col(column: u16, cols: u16) -> u16 {
    let view_cols: int = if cols == 0 { 1 } else { cols as int };
    let col: int = if column == 0 { 0 } else { column - 1 };
    if col < view_cols - 1 {
        col as u16
    } else {
        (view_cols - 1) as u16
    }
}

/// The column just past a mouse column, within the window.
pub open spec fn view_col_end(column: u16, cols: u16) -> u16 {
    let view_cols: int = if cols == 0 { 1 } else { cols as int };
    if view_col(column, cols) + 1 < view_cols {
        (view_col(column, cols) + 1) as u16
    } else {
        view_cols as u16
    }
}

/// Whether a mouse row lies on the terminal view.
pub open spec fn in_view(row: u16, rows: u16) -> bool {
    HEADER_HEIGHT <= row && row < rows - TERMINAL_FOOTER_HEIGHT
}

impl TabSelection {
    /// No selection.
    pub fn new() -> (r: Self)
        ensures
            r.selection_start is None,
            r.selection_end is None,
            !r.selecting,
    {
        TabSelection { selection_start: None, selection_end: None, selecting: false }
    }

    /// Drops the selection.
    pub fn clear(&mut self)
        ensures
            final(self).selection_start is None,
            final(self).selection_end is None,
            !final(self).selecting,
    {
        self.selecting = false;
        self.selection_start = None;
        self.selection_end = None;
    }

    /// The selected range with its ends in screen order; a selection with
    /// no end yet covers its start alone.
    pub fn selection_range(&self) -> (r: Option<SelectionRange>)
        ensures
            match self.selection_start {
                None => r is None,
                Some(s) => r == Some(
                    ordered_range(
                        s,
                        match self.selection_end {
                            Some(e) => e,
                            None => s,
                        },
                    ),
                ),
            },
    {
        let (start_row, start_col) = match self.selection_start {
            Some(s) => s,
            None => {
                return None;
            },
        };
        let (end_row, end_col) = match self.selection_end {
            Some(e) => e,
            None => (start_row, start_col),
        };
        if start_row < end_row || (start_row == end_row && start_col <= end_col) {
            Some(SelectionRange { start_row, start_col, end_row, end_col })
        } else {
            Some(
                SelectionRange {
                    start_row: end_row,
                    start_col: end_col,
                    end_row: start_row,
                    end_col: start_col,
                },
            )
        }
    }

    /// Whether there is a selection to copy.
    pub fn has_selection(&self) -> (r: bool)
        ensures
            r == self.selection_start is Some,
    {
        self.selection_start.is_some()
    }

    /// Applies a mouse event at `column`, `row` of a window `cols` by
    /// `rows` cells to the selection of the focused tab.
    pub fn on_mouse(&mut self, kind: MouseKind, column: u16, row: u16, cols: u16, rows: u16) -> (r:
        MouseOutcome)
        ensures
            rows <= HEADER_HEIGHT + TERMINAL_FOOTER_HEIGHT ==> r == MouseOutcome::Unhandled
                && *final(self) == *old(self),
            rows > HEADER_HEIGHT + TERMINAL_FOOTER_HEIGHT && !in_view(row, rows) ==> r
                == MouseOutcome::Unhandled && final(self).selection_start is None
                && final(self).selection_end is None && !final(self).selecting,
            rows > HEADER_HEIGHT + TERMINAL_FOOTER_HEIGHT && in_view(row, rows) ==> {
                let cell = (view_row(row, rows), view_col(column, cols));
                let end = (view_row(row, rows), view_col_end(column, cols));
                match kind {
                    MouseKind::ScrollUp => r == MouseOutcome::Scroll(TERMINAL_SCROLL_STEP)
                        && final(self).selection_start is None && final(self).selection_end is None
                        && !final(self).selecting,
                    MouseKind::ScrollDown => r == MouseOutcome::Scroll(TERMINAL_SCROLL_STEP_FORWARD)
                        && final(self).selection_start is None && final(self).selection_end is None
                        && !final(self).selecting,
                    MouseKind::LeftDown => r == MouseOutcome::Handled && final(self).selecting
                        && final(self).selection_start == Some(cell)
                        && final(self).selection_end == Some(end),
                    MouseKind::LeftDrag => if old(self).selecting {
                        r == MouseOutcome::Handled && final(self).selecting
                            && final(self).selection_start == old(self).selection_start
                            && final(self).selection_end == Some(end)
                    } else {
                        r == MouseOutcome::Unhandled && *final(self) == *old(self)
                    },
                    MouseKind::LeftUp => if old(self).selecting {
                        r == MouseOutcome::Handled && !final(self).selecting
                            && final(self).selection_start == old(self).selection_start
                            && final(self).selection_end == Some(end)
                    } else {
                        r == MouseOutcome::Unhandled && *final(self) == *old(self)
                    },
                    MouseKind::Other => r == MouseOutcome::Unhandled && *final(self) == *old(self),
                }
            },
    {
        let header = HEADER_HEIGHT;
        let footer = TERMINAL_FOOTER_HEIGHT;
        if rows <= header + footer {
            return MouseOutcome::Unhandled;
        }
        let view_rows = rows - (header + footer);
        let view_cols = if cols == 0 { 1 } else { cols };
        let view_top = header;
        let view_bottom = rows - footer;
        if row < view_top || row >= view_bottom {
            self.clear();
            return MouseOutcome::Unhandled;
        }
        let rel_row = row - view_top;
        let cell_row = if rel_row < view_rows - 1 { rel_row } else { view_rows - 1 };
        let shifted = if column == 0 { 0 } else { column - 1 };
        let cell_col = if shifted < view_cols - 1 { shifted } else { view_cols - 1 };
        let col_exclusive = if cell_col + 1 < view_cols { cell_col + 1 } else { view_cols };
        match kind {
            MouseKind::ScrollUp => {
                self.clear();
                MouseOutcome::Scroll(TERMINAL_SCROLL_STEP)
            },
            MouseKind::ScrollDown => {
                self.clear();
                MouseOutcome::Scroll(TERMINAL_SCROLL_STEP_FORWARD)
            },
            MouseKind::LeftDown => {
                self.selecting = true;
                self.selection_start = Some((cell_row, cell_col));
                self.selection_end = Some((cell_row, col_exclusive));
                MouseOutcome::Handled
            },
            MouseKind::LeftDrag => {
                if self.selecting {
                    self.selection_end = Some((cell_row, col_exclusive));
                    MouseOutcome::Handled
                } else {
                    MouseOutcome::Unhandled
                }
            },
            MouseKind::LeftUp => {
                if self.selecting {
                    self.selecting = false;
                    self.selection_end = Some((cell_row, col_exclusive));
                    MouseOutcome::Handled
                } else {
                    MouseOutcome::Unhandled
                }
            },
            MouseKind::Other => MouseOutcome::Unhandled,
        }
    }
}

/// `a + 1` as a `u16` that stops at its largest value.
pub open spec fn succ_u16(a: u16) -> u16 {
    if a < u16::MAX {
        (a + 1) as u16
    } else {
        u16::MAX
    }
}

/// The cells to copy for a selection on a screen `cols` wide: one more
/// cell on each side where there is room, and at least one cell.
pub open spec fn spec_copy_bounds(range: SelectionRange, cols: u16) -> SelectionRange {
    let start_col: u16 = if range.start_col > 0 { (range.start_col - 1) as u16 } else { 0 };
    let end_col: u16 = if range.end_col < cols {
        if succ_u16(range.end_col) < cols { succ_u16(range.end_col) } else { cols }
    } else {
        range.end_col
    };
    let end_col2: u16 = if range.start_row == range.end_row && end_col == start_col {
        if succ_u16(end_col) < cols { succ_u16(end_col) } else { cols }
    } else {
        end_col
    };
    SelectionRange {
        start_row: range.start_row,
        start_col,
        end_row: range.end_row,
        end_col: end_col2,
    }
}

/// The cells to copy for a selection on a screen `cols` wide.
pub fn copy_bounds(range: SelectionRange, cols: u16) -> (r: SelectionRange)
    ensures
        r == spec_copy_bounds(range, cols),
{
    let mut out = range;
    if out.start_col > 0 {
        out.start_col = out.start_col - 1;
    }
    if out.end_col < cols {
        let next = if out.end_col < u16::MAX { out.end_col + 1 } else { u16::MAX };
        out.end_col = if next < cols { next } else { cols };
    }
    if out.start_row == out.end_row && out.end_col == out.start_col {
        let next = if out.end_col < u16::MAX { out.end_col + 1 } else { u16::MAX };
        out.end_col = if next < cols { next } else { cols };
    }
    out
}

/// The scrollback position after moving by `delta` lines, stopping at the
/// ends of the range of `usize`.
pub open spec fn spec_scrollback_after(current: usize, delta: i16) -> usize {
    if delta >= 0 {
        if current + delta <= usize::MAX {
            (current + delta) as usize
        } else {
            usize::MAX
        }
    } else if current + delta >= 0 {
        (current + delta) as usize
    } else {
        0
    }
}

/// The scrollback position after moving by `delta` lines.
pub fn scrollback_after(current: usize, delta: i16) -> (r: usize)
    ensures
        r == spec_scrollback_after(current, delta),
{
    if delta >= 0 {
        let step = delta as usize;
        if current <= usize::MAX - step {
            current + step
        } else {
            usize::MAX
        }
    } else {
        let step: usize = if delta == i16::MIN {
            32768
        } else {
            (-delta) as usize
        };
        if current >= step {
            current - step
        } else {
            0
        }
    }
}

/// The bytes a key sends to the shell: control characters with Ctrl, the
/// UTF-8 encoding of a character, and the usual escape sequences.
pub open spec fn spec_key_bytes(key: KeyPress) -> Option<Seq<u8>> {
    match key.code {
        Key::Char(c) => if key.ctrl {
            Some(seq![((c as u32) % 32) as u8])
        } else {
            Some(encode_utf8(seq![c]))
        },
        Key::Enter => Some(seq![13u8]),
        Key::Backspace => Some(seq![127u8]),
        Key::Tab => Some(seq![9u8]),
        Key::Esc => Some(seq![27u8]),
        Key::Up => Some(seq![27u8, 91u8, 65u8]),
        Key::Down => Some(seq![27u8, 91u8, 66u8]),
        Key::Right => Some(seq![27u8, 91u8, 67u8]),
        Key::Left => Some(seq![27u8, 91u8, 68u8]),
        Key::Home => Some(seq![27u8, 91u8, 72u8]),
        Key::End => Some(seq![27u8, 91u8, 70u8]),
        Key::Delete => Some(seq![27u8, 91u8, 51u8, 126u8]),
        Key::Insert => Some(seq![27u8, 91u8, 50u8, 126u8]),
        Key::PageUp => Some(seq![27u8, 91u8, 53u8, 126u8]),
        Key::PageDown => Some(seq![27u8, 91u8, 54u8, 126u8]),
        _ => None,
    }
}

/// The bytes a key sends to the shell, if it sends any.
pub fn key_to_bytes(key: KeyPress) -> (r: Option<Vec<u8>>)
    ensures
        match spec_key_bytes(key) {
            Some(b) => r is Some && r.unwrap()@ == b,
            None => r is None,
        },
        key.code == Key::Up ==> r is Some && r.unwrap()@ == seq![0x1bu8, 0x5bu8, 0x41u8],
        key.code == Key::Down ==> r is Some && r.unwrap()@ == seq![0x1bu8, 0x5bu8, 0x42u8],
        key.code == Key::Right ==> r is Some && r.unwrap()@ == seq![0x1bu8, 0x5bu8, 0x43u8],
        key.code == Key::Left ==> r is Some && r.unwrap()@ == seq![0x1bu8, 0x5bu8, 0x44u8],
        key.code == Key::Home ==> r is Some && r.unwrap()@ == seq![0x1bu8, 0x5bu8, 0x48u8],
        key.code == Key::End ==> r is Some && r.unwrap()@ == seq![0x1bu8, 0x5bu8, 0x46u8],
        key.code == Key::Delete ==> r is Some && r.unwrap()@ == seq![0x1bu8, 0x5bu8, 0x33u8, 0x7eu8],
        key.code == Key::Insert ==> r is Some && r.unwrap()@ == seq![0x1bu8, 0x5bu8, 0x32u8, 0x7eu8],
        key.code == Key::PageUp ==> r is Some && r.unwrap()@ == seq![0x1bu8, 0x5bu8, 0x35u8, 0x7eu8],
        key.code == Key::PageDown ==> r is Some && r.unwrap()@ == seq![0x1bu8, 0x5bu8, 0x36u8, 0x7eu8],
        key.code == Key::Enter ==> r is Some && r.unwrap()@ == seq![0x0du8],
        key.code == Key::Backspace ==> r is Some && r.unwrap()@ == seq![0x7fu8],
        key.code == Key::Tab ==> r is Some && r.unwrap()@ == seq![0x09u8],
        key.code == Key::Esc ==> r is Some && r.unwrap()@ == seq![0x1bu8],
        key.code matches Key::Char(c) ==> (!key.ctrl ==> r is Some && r.unwrap()@ == encode_utf8(
            seq![c],
        )),
        key.code matches Key::Char(c) ==> (key.ctrl ==> r is Some && r.unwrap()@.len() == 1
            && r.unwrap()@[0] as u32 == (c as u32) % 32),
        r is None <==> (key.code is BackTab || key.code is F || key.code is Other),
{
    match key.code {
        Key::Char(c) => {
            if key.ctrl {
                let byte = ((c as u32) % 32) as u8;
                Some(vec![byte])
            } else {
                let text = from_chars(&[c]);
                let bytes = text.as_str().as_bytes_vec();
                proof {
                    assert(text@ =~= seq![c]);
                }
                Some(bytes)
            }
        },
        Key::Enter => Some(vec![13u8]),
        Key::Backspace => Some(vec![127u8]),
        Key::Tab => Some(vec![9u8]),
        Key::Esc => Some(vec![27u8]),
        Key::Up => Some(vec![27u8, 91u8, 65u8]),
        Key::Down => Some(vec![27u8, 91u8, 66u8]),
        Key::Right => Some(vec![27u8, 91u8, 67u8]),
        Key::Left => Some(vec![27u8, 91u8, 68u8]),
        Key::Home => Some(vec![27u8, 91u8, 72u8]),
        Key::End => Some(vec![27u8, 91u8, 70u8]),
        Key::Delete => Some(vec![27u8, 91u8, 51u8, 126u8]),
        Key::Insert => Some(vec![27u8, 91u8, 50u8, 126u8]),
        Key::PageUp => Some(vec![27u8, 91u8, 53u8, 126u8]),
        Key::PageDown => Some(vec![27u8, 91u8, 54u8, 126u8]),
        _ => None,
    }
}

/// The arrow keys send the ANSI cursor sequences, each for its own
/// direction: ESC [ A up, ESC [ B down, ESC [ C right, ESC [ D left, so
/// no two arrows send the same bytes.
pub proof fn lemma_arrows_send_cursor_sequences(key: KeyPress)
    ensures
        key.code == Key::Up ==> spec_key_bytes(key) == Some(seq![0x1bu8, 0x5bu8, 0x41u8]),
        key.code == Key::Down ==> spec_key_bytes(key) == Some(seq![0x1bu8, 0x5bu8, 0x42u8]),
        key.code == Key::Right ==> spec_key_bytes(key) == Some(seq![0x1bu8, 0x5bu8, 0x43u8]),
        key.code == Key::Left ==> spec_key_bytes(key) == Some(seq![0x1bu8, 0x5bu8, 0x44u8]),
{
}

/// Pasted text as a shell expects it: every line break, `\r\n` or `\n`,
/// becomes `\r`.
pub open spec fn paste_text(s: Seq<char>) -> Seq<char>
    decreases s.len(),
{
    if s.len() == 0 {
        seq![]
    } else if s[0] == '\r' && s.len() >= 2 && s[1] == '\n' {
        seq!['\r'] + paste_text(s.skip(2))
    } else if s[0] == '\n' {
        seq!['\r'] + paste_text(s.skip(1))
    } else {
        seq![s[0]] + paste_text(s.skip(1))
    }
}

/// The bytes a paste of `text` sends to the shell.
pub fn paste_bytes(text: &str) -> (r: Vec<u8>)
    ensures
        r@ == encode_utf8(paste_text(text@)),
{
    let chars = to_chars(text);
    let mut out: Vec<char> = Vec::new();
    let mut i: usize = 0;
    assert(chars@.skip(0) =~= chars@);
    assert(out@ + paste_text(chars@) =~= paste_text(chars@));
    while i < chars.len()
        invariant
            i <= chars@.len(),
            chars@ == text@,
            out@ + paste_text(chars@.skip(i as int)) == paste_text(chars@),
        decreases chars@.len() - i,
    {
        let ghost rest = chars@.skip(i as int);
        if chars[i] == '\r' && i + 1 < chars.len() && chars[i + 1] == '\n' {
            assert(rest.skip(2) =~= chars@.skip(i + 2));
            out.push('\r');
            i = i + 2;
        } else if chars[i] == '\n' {
            assert(rest.skip(1) =~= chars@.skip(i + 1));
            out.push('\r');
            i = i + 1;
        } else {
            assert(rest.skip(1) =~= chars@.skip(i + 1));
            out.push(chars[i]);
            i = i + 1;
        }
        assert(out@ + paste_text(chars@.skip(i as int)) =~= paste_text(chars@));
    }
    assert(chars@.skip(i as int) =~= Seq::<char>::empty());
    assert(out@ =~= paste_text(chars@));
    let s = from_chars(out.as_slice());
    s.as_str().as_bytes_vec()
}

/// What a key does while terminal tabs are open.
#[derive(Debug, Clone, PartialEq, Eq)]
pub enum TabsCommand {
    /// The key is not for the tabs; the rest of the application takes it.
    Pass,
    /// Copy the selection of the focused tab.
    Copy,
    /// Paste the clipboard into the focused tab.
    Paste,
    /// Focus the previous position.
    CycleBack,
    /// Focus the next position.
    Cycle,
    /// Close the focused tab.
    Close,
    /// Scroll back by this many lines (forward where negative).
    Scroll(i16),
    /// Send these bytes to the focused tab's shell.
    Send(Vec<u8>),
    /// The key is taken and does nothing.
    Swallow,
}

/// The command a key gives while tabs are open: copy and paste with Ctrl on
/// a tab, the function keys and page keys anywhere, and everything else to
/// the shell of the focused tab.
pub open spec fn spec_tabs_command(key: KeyPress, tabs_open: bool, active: usize, has_selection: bool) -> TabsCommand {
    if !tabs_open {
        TabsCommand::Pass
    } else if active > 0 && key.ctrl && (key.code == Key::Char('c') || key.code == Key::Char('C'))
        && (has_selection || key.shift) {
        TabsCommand::Copy
    } else if active > 0 && key.ctrl && (key.code == Key::Char('v') || key.code == Key::Char('V')) {
        TabsCommand::Paste
    } else if key.code == Key::F(6) {
        TabsCommand::CycleBack
    } else if key.code == Key::F(7) {
        TabsCommand::Cycle
    } else if key.code == Key::F(8) {
        TabsCommand::Close
    } else if key.code == Key::PageUp {
        TabsCommand::Scroll(TERMINAL_SCROLL_STEP)
    } else if key.code == Key::PageDown {
        TabsCommand::Scroll(TERMINAL_SCROLL_STEP_FORWARD)
    } else if active == 0 {
        TabsCommand::Pass
    } else {
        TabsCommand::Swallow
    }
}

/// The command a key gives while tabs are open.
pub fn tabs_command(key: KeyPress, tabs_open: bool, active: usize, has_selection: bool) -> (r:
    TabsCommand)
    ensures
        match spec_tabs_command(key, tabs_open, active, has_selection) {
            TabsCommand::Swallow => match spec_key_bytes(key) {
                Some(b) => r matches TabsCommand::Send(v) && v@ == b,
                None => r == TabsCommand::Swallow,
            },
            c => r == c,
        },
{
    if !tabs_open {
        return TabsCommand::Pass;
    }
    if active > 0 && key.ctrl {
        if let Key::Char(c) = key.code {
            if (c == 'c' || c == 'C') && (has_selection || key.shift) {
                return TabsCommand::Copy;
            }
            if c == 'v' || c == 'V' {
                return TabsCommand::Paste;
            }
        }
    }
    match key.code {
        Key::F(6) => {
            return TabsCommand::CycleBack;
        },
        Key::F(7) => {
            return TabsCommand::Cycle;
        },
        Key::F(8) => {
            return TabsCommand::Close;
        },
        Key::PageUp => {
            return TabsCommand::Scroll(TERMINAL_SCROLL_STEP);
        },
        Key::PageDown => {
            return TabsCommand::Scroll(TERMINAL_SCROLL_STEP_FORWARD);
        },
        _ => {},
    }
    if active == 0 {
        return TabsCommand::Pass;
    }
    match key_to_bytes(key) {
        Some(bytes) => TabsCommand::Send(bytes),
        None => TabsCommand::Swallow,
    }
}

/// Whether Ctrl+C quits the application: not with Shift, and not while a
/// terminal tab has the focus.
pub fn ctrl_c_quits(key: KeyPress, tabs_open: bool, active: usize) -> (r: bool)
    ensures
        r == (key.ctrl && key.code == Key::Char('c') && !key.shift && !(tabs_open && active > 0)),
{
    let ctrl_c = key.ctrl && key.code == Key::Char('c');
    let ctrl_shift_c = ctrl_c && key.shift;
    ctrl_c && !ctrl_shift_c && !(tabs_open && active > 0)
}

/// Moving the focus back undoes moving it on, and the other way round.
pub proof fn lemma_cycle_back_undoes_cycle(active: nat, len: nat)
    requires
        active <= len,
    ensures
        cycled_back_focus(cycled_focus(active, len), len) == active,
        cycled_focus(cycled_back_focus(active, len), len) == active,
{
    if len > 0 {
        if active == len {
            vstd::arithmetic::div_mod::lemma_mod_self_0((len + 1) as int);
        } else {
            vstd::arithmetic::div_mod::lemma_small_mod((active + 1) as nat, (len + 1) as nat);
        }
        if active == 0 {
            vstd::arithmetic::div_mod::lemma_mod_self_0((len + 1) as int);
        } else {
            vstd::arithmetic::div_mod::lemma_small_mod(active, (len + 1) as nat);
        }
    }
}

/// A selection range runs from its earlier cell to its later one.
pub proof fn lemma_selection_ordered(a: (u16, u16), b: (u16, u16))
    ensures
        cell_le(
            (ordered_range(a, b).start_row, ordered_range(a, b).start_col),
            (ordered_range(a, b).end_row, ordered_range(a, b).end_col),
        ),
{
}

/// Pasted text reaches the shell without line feeds.
pub proof fn lemma_paste_has_no_line_feed(s: Seq<char>)
    ensures
        !paste_text(s).contains('\n'),
    decreases s.len(),
{
    if s.len() > 0 {
        let (head, rest) = if s[0] == '\r' && s.len() >= 2 && s[1] == '\n' {
            (seq!['\r'], s.skip(2))
        } else if s[0] == '\n' {
            (seq!['\r'], s.skip(1))
        } else {
            (seq![s[0]], s.skip(1))
        };
        lemma_paste_has_no_line_feed(rest);
        assert(paste_text(s) == head + paste_text(rest));
        if paste_text(s).contains('\n') {
            let k = choose|k: int| 0 <= k < paste_text(s).len() && paste_text(s)[k] == '\n';
            if k >= 1 {
                assert(paste_text(rest)[k - 1] == '\n');
            }
        }
    }
}

/// A mouse event on the terminal view lands on a cell of the screen, and
/// the end of a selection made there lies just past it, within the width.
pub proof fn lemma_mouse_cell_in_view(column: u16, row: u16, cols: u16, rows: u16)
    requires
        rows > HEADER_HEIGHT + TERMINAL_FOOTER_HEIGHT,
        in_view(row, rows),
    ensures
        view_row(row, rows) < rows - HEADER_HEIGHT - TERMINAL_FOOTER_HEIGHT,
        view_col(column, cols) < (if cols == 0 { 1 } else { cols as int }),
        view_col(column, cols) < view_col_end(column, cols),
        view_col_end(column, cols) <= (if cols == 0 { 1 } else { cols as int }),
{
}

} // verus!
