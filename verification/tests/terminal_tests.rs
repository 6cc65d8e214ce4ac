use super_simple_ssh::keys::{Key, KeyPress};
use super_simple_ssh::terminal::{
    copy_bounds, ctrl_c_quits, key_to_bytes, paste_bytes, scrollback_after, tabs_command,
    MouseKind, MouseOutcome, SelectionRange, TabSelection, TabsCommand, TerminalTabs,
};

fn ctrl(c: char) -> KeyPress {
    KeyPress {
        code: Key::Char(c),
        ctrl: true,
        shift: false,
    }
}

#[test]
fn tabs_open_and_cycle() {
    let mut tabs: TerminalTabs<String> = TerminalTabs::new();
    assert!(!tabs.is_open());
    tabs.cycle();
    assert_eq!(tabs.active, 0);
    tabs.open("one".to_string());
    tabs.open("two".to_string());
    assert_eq!(tabs.active, 2);
    tabs.cycle();
    assert_eq!(tabs.active, 0);
    tabs.cycle();
    assert_eq!(tabs.active, 1);
    tabs.cycle_back();
    assert_eq!(tabs.active, 0);
    tabs.cycle_back();
    assert_eq!(tabs.active, 2);
    assert_eq!(tabs.focus_index(), Some(1));
}

#[test]
fn cycling_back_undoes_cycling() {
    let mut tabs: TerminalTabs<u8> = TerminalTabs::new();
    for t in 0..4u8 {
        tabs.open(t);
    }
    for start in 0..=4usize {
        tabs.active = start;
        tabs.cycle();
        tabs.cycle_back();
        assert_eq!(tabs.active, start);
        tabs.cycle_back();
        tabs.cycle();
        assert_eq!(tabs.active, start);
    }
}

#[test]
fn focus_index_on_connections_view_is_first_tab() {
    let mut tabs: TerminalTabs<u8> = TerminalTabs::new();
    assert_eq!(tabs.focus_index(), None);
    tabs.open(7);
    tabs.active = 0;
    assert_eq!(tabs.focus_index(), Some(0));
}

#[test]
fn close_active_tab() {
    let mut tabs: TerminalTabs<&str> = TerminalTabs::new();
    tabs.open("a");
    tabs.open("b");
    tabs.open("c");
    tabs.active = 0;
    assert_eq!(tabs.close_active(), None);
    assert_eq!(tabs.tabs.len(), 3);
    tabs.active = 3;
    assert_eq!(tabs.close_active(), Some("c"));
    assert_eq!(tabs.active, 2);
    tabs.active = 1;
    assert_eq!(tabs.close_active(), Some("a"));
    assert_eq!(tabs.tabs, vec!["b"]);
    assert_eq!(tabs.active, 1);
    assert_eq!(tabs.close_active(), Some("b"));
    assert_eq!(tabs.active, 0);
}

#[test]
fn remove_closed_tabs_from_the_back() {
    let mut tabs: TerminalTabs<u8> = TerminalTabs::new();
    for t in 0..5u8 {
        tabs.open(t);
    }
    tabs.remove_closed(&vec![1, 3]);
    assert_eq!(tabs.tabs, vec![0, 2, 4]);
    assert_eq!(tabs.active, 3);
    tabs.remove_closed(&vec![0, 1, 2]);
    assert!(tabs.tabs.is_empty());
    assert_eq!(tabs.active, 0);
}

#[test]
fn selection_range_orders_ends() {
    let mut sel = TabSelection::new();
    assert!(sel.selection_range().is_none());
    sel.selection_start = Some((4, 10));
    assert_eq!(
        sel.selection_range(),
        Some(SelectionRange { start_row: 4, start_col: 10, end_row: 4, end_col: 10 })
    );
    sel.selection_end = Some((2, 3));
    assert_eq!(
        sel.selection_range(),
        Some(SelectionRange { start_row: 2, start_col: 3, end_row: 4, end_col: 10 })
    );
    sel.selection_end = Some((4, 12));
    assert_eq!(
        sel.selection_range(),
        Some(SelectionRange { start_row: 4, start_col: 10, end_row: 4, end_col: 12 })
    );
    assert!(sel.has_selection());
    sel.clear();
    assert!(!sel.has_selection());
}

#[test]
fn mouse_selects_and_scrolls() {
    let mut sel = TabSelection::new();
    assert_eq!(sel.on_mouse(MouseKind::LeftDown, 10, 5, 80, 24), MouseOutcome::Handled);
    assert!(sel.selecting);
    assert_eq!(sel.selection_start, Some((2, 9)));
    assert_eq!(sel.selection_end, Some((2, 10)));
    assert_eq!(sel.on_mouse(MouseKind::LeftDrag, 30, 40, 80, 24), MouseOutcome::Unhandled);
    assert!(sel.selection_start.is_none());
    assert_eq!(sel.on_mouse(MouseKind::LeftDown, 0, 3, 80, 24), MouseOutcome::Handled);
    assert_eq!(sel.selection_start, Some((0, 0)));
    assert_eq!(sel.on_mouse(MouseKind::LeftDrag, 200, 21, 80, 24), MouseOutcome::Handled);
    assert_eq!(sel.selection_end, Some((18, 80)));
    assert_eq!(sel.on_mouse(MouseKind::LeftUp, 5, 4, 80, 24), MouseOutcome::Handled);
    assert!(!sel.selecting);
    assert_eq!(sel.selection_end, Some((1, 5)));
    assert_eq!(sel.on_mouse(MouseKind::LeftUp, 5, 4, 80, 24), MouseOutcome::Unhandled);
    assert_eq!(sel.on_mouse(MouseKind::ScrollUp, 5, 4, 80, 24), MouseOutcome::Scroll(3));
    assert!(sel.selection_start.is_none());
    assert_eq!(sel.on_mouse(MouseKind::ScrollDown, 5, 4, 80, 24), MouseOutcome::Scroll(-3));
    assert_eq!(sel.on_mouse(MouseKind::LeftDown, 5, 4, 80, 5), MouseOutcome::Unhandled);
    assert!(sel.selection_start.is_none());
}

#[test]
fn copy_bounds_widen_selection() {
    let r = copy_bounds(SelectionRange { start_row: 1, start_col: 4, end_row: 2, end_col: 6 }, 80);
    assert_eq!(r, SelectionRange { start_row: 1, start_col: 3, end_row: 2, end_col: 7 });
    let edge = copy_bounds(SelectionRange { start_row: 0, start_col: 0, end_row: 0, end_col: 80 }, 80);
    assert_eq!(edge, SelectionRange { start_row: 0, start_col: 0, end_row: 0, end_col: 80 });
    let single = copy_bounds(SelectionRange { start_row: 3, start_col: 1, end_row: 3, end_col: 0 }, 80);
    assert_eq!(single, SelectionRange { start_row: 3, start_col: 0, end_row: 3, end_col: 1 });
}

#[test]
fn scrollback_saturates() {
    assert_eq!(scrollback_after(10, 3), 13);
    assert_eq!(scrollback_after(2, -3), 0);
    assert_eq!(scrollback_after(usize::MAX - 1, 3), usize::MAX);
    assert_eq!(scrollback_after(5, i16::MIN), 0);
    assert_eq!(scrollback_after(40000, i16::MIN), 40000 - 32768);
}

#[test]
fn keys_become_shell_bytes() {
    assert_eq!(key_to_bytes(KeyPress::plain(Key::Char('a'))), Some(b"a".to_vec()));
    assert_eq!(key_to_bytes(KeyPress::plain(Key::Char('é'))), Some("é".as_bytes().to_vec()));
    assert_eq!(key_to_bytes(ctrl('c')), Some(vec![3]));
    assert_eq!(key_to_bytes(ctrl('C')), Some(vec![3]));
    assert_eq!(key_to_bytes(KeyPress::plain(Key::Enter)), Some(vec![b'\r']));
    assert_eq!(key_to_bytes(KeyPress::plain(Key::Backspace)), Some(vec![0x7f]));
    assert_eq!(key_to_bytes(KeyPress::plain(Key::Up)), Some(b"\x1b[A".to_vec()));
    assert_eq!(key_to_bytes(KeyPress::plain(Key::Delete)), Some(b"\x1b[3~".to_vec()));
    assert_eq!(key_to_bytes(KeyPress::plain(Key::PageDown)), Some(b"\x1b[6~".to_vec()));
    assert_eq!(key_to_bytes(KeyPress::plain(Key::F(5))), None);
}

#[test]
fn paste_turns_line_breaks_into_returns() {
    assert_eq!(paste_bytes("a\r\nb\nc\rd"), b"a\rb\rc\rd".to_vec());
    assert_eq!(paste_bytes("\r\r\n"), b"\r\r".to_vec());
    assert_eq!(paste_bytes("ü\n"), "ü\r".as_bytes().to_vec());
    assert!(!paste_bytes("x\ny\r\n\n").contains(&b'\n'));
}

#[test]
fn tabs_commands() {
    assert_eq!(tabs_command(ctrl('c'), false, 1, true), TabsCommand::Pass);
    assert_eq!(tabs_command(ctrl('c'), true, 1, true), TabsCommand::Copy);
    assert_eq!(
        tabs_command(KeyPress { code: Key::Char('C'), ctrl: true, shift: true }, true, 1, false),
        TabsCommand::Copy
    );
    assert_eq!(tabs_command(ctrl('c'), true, 1, false), TabsCommand::Send(vec![3]));
    assert_eq!(tabs_command(ctrl('v'), true, 2, false), TabsCommand::Paste);
    assert_eq!(tabs_command(KeyPress::plain(Key::F(6)), true, 0, false), TabsCommand::CycleBack);
    assert_eq!(tabs_command(KeyPress::plain(Key::F(7)), true, 0, false), TabsCommand::Cycle);
    assert_eq!(tabs_command(KeyPress::plain(Key::F(8)), true, 1, false), TabsCommand::Close);
    assert_eq!(tabs_command(KeyPress::plain(Key::PageUp), true, 0, false), TabsCommand::Scroll(3));
    assert_eq!(tabs_command(KeyPress::plain(Key::PageDown), true, 1, false), TabsCommand::Scroll(-3));
    assert_eq!(tabs_command(KeyPress::plain(Key::Char('x')), true, 0, false), TabsCommand::Pass);
    assert_eq!(tabs_command(KeyPress::plain(Key::Char('x')), true, 1, false), TabsCommand::Send(b"x".to_vec()));
    assert_eq!(tabs_command(KeyPress::plain(Key::F(1)), true, 1, false), TabsCommand::Swallow);
}

#[test]
fn ctrl_c_quits_outside_terminal_tabs() {
    assert!(ctrl_c_quits(ctrl('c'), false, 0));
    assert!(ctrl_c_quits(ctrl('c'), true, 0));
    assert!(!ctrl_c_quits(ctrl('c'), true, 1));
    assert!(!ctrl_c_quits(KeyPress { code: Key::Char('c'), ctrl: true, shift: true }, false, 0));
    assert!(!ctrl_c_quits(KeyPress::plain(Key::Char('c')), false, 0));
}
