use ratatui::layout::{Constraint, Direction, Layout};
use super_simple_ssh::layout::{
    centered_rect, centered_rect_abs, centered_rect_by_height, form_scroll, list_state, padded_rect,
    saved_list_window, Rect,
};
use super_simple_ssh::model::AuthKind;
use super_simple_ssh::text::{trim_text, auth_kind_label, format_bytes, modal_height, parent_remote_dir, truncate_text};

#[test]
fn parent_remote_dir_handles_root_and_trailing() {
    assert_eq!(parent_remote_dir("/"), "/");
    assert_eq!(parent_remote_dir("/home/user/"), "/home");
    assert_eq!(parent_remote_dir("/home/user"), "/home");
    assert_eq!(parent_remote_dir("home"), "/");
}

#[test]
fn parent_remote_dir_reaches_root() {
    let mut path = String::from("/srv/data/backups/2024/");
    let mut steps = 0;
    while path != "/" {
        let next = parent_remote_dir(&path);
        assert!(next == "/" || next.chars().count() < path.chars().count());
        path = next;
        steps += 1;
    }
    assert_eq!(steps, 4);
    assert_eq!(parent_remote_dir("/a"), "/");
    assert_eq!(parent_remote_dir(""), "/");
}

#[test]
fn truncate_text_handles_edges() {
    assert_eq!(truncate_text("abc", 0), "");
    assert_eq!(truncate_text("abc", 2), "ab");
    assert_eq!(truncate_text("abcd", 3), "abc");
    assert_eq!(truncate_text("abcdef", 4), "a...");
    assert_eq!(truncate_text("short", 10), "short");
}

#[test]
fn truncate_text_counts_characters() {
    assert_eq!(truncate_text("héllo wörld", 8), "héllo...");
    assert!(truncate_text("héllo wörld", 8).chars().count() <= 8);
}

#[test]
fn format_bytes_scales_units() {
    assert_eq!(format_bytes(0), "0 B");
    assert_eq!(format_bytes(512), "512 B");
    assert_eq!(format_bytes(1024), "1.0 KB");
    assert_eq!(format_bytes(1024 * 1024), "1.0 MB");
}

fn float_format_bytes(bytes: u64) -> String {
    let units = ["B", "KB", "MB", "GB", "TB"];
    let mut size = bytes as f64;
    let mut unit = 0usize;
    while size >= 1024.0 && unit + 1 < units.len() {
        size /= 1024.0;
        unit += 1;
    }
    if unit == 0 {
        format!("{} {}", bytes, units[unit])
    } else {
        format!("{:.1} {}", size, units[unit])
    }
}

#[test]
fn format_bytes_matches_float_rounding() {
    let mut samples: Vec<u64> = vec![
        1023, 1024, 1075, 1126, 1127, 1228, 1280, 1331, 1383, 1536, 1587, 10239, 10240,
        1048575, 1048576, 1572864, 1625292, 1073741823, 1073741824, 1099511627775,
        1099511627776, 1125899906842624, u64::MAX,
    ];
    let mut x: u64 = 1;
    while x < u64::MAX / 3 {
        samples.push(x);
        samples.push(x + x / 2);
        samples.push(x * 3 / 2 + 51);
        x = x * 3 + 7;
    }
    for k in 0u64..4096 {
        samples.push(1024 + k * 13);
        samples.push(1024 * 1024 + k * 9973);
    }
    for bytes in samples {
        assert_eq!(format_bytes(bytes), float_format_bytes(bytes), "bytes = {bytes}");
    }
}

#[test]
fn format_bytes_of_terabytes() {
    assert_eq!(format_bytes(1024u64.pow(4)), "1.0 TB");
    assert_eq!(format_bytes(1024u64.pow(4) * 2048), "2048.0 TB");
}

#[test]
fn auth_kind_label_matches_variants() {
    assert_eq!(auth_kind_label(AuthKind::PasswordOnly), "Password only");
    assert_eq!(auth_kind_label(AuthKind::PrivateKey), "Private key");
    assert_eq!(
        auth_kind_label(AuthKind::PrivateKeyWithPassword),
        "Private key + password"
    );
}

#[test]
fn modal_height_adds_border_and_title() {
    assert_eq!(modal_height(1, 2), 7);
    assert_eq!(modal_height(0, 0), 4);
    assert_eq!(modal_height(70000, 0), 4468);
    assert_eq!(modal_height(65533, 0), 65535);
}

#[test]
fn list_state_clamps_selection() {
    let state = list_state(5, 0);
    assert!(state.selected().is_none());
    let state = list_state(5, 3);
    assert_eq!(state.selected(), Some(2));
}

#[test]
fn centered_rect_abs_clamps_to_area() {
    let area = Rect {
        x: 0,
        y: 0,
        width: 10,
        height: 5,
    };
    let rect = centered_rect_abs(100, 100, area);
    assert_eq!(rect.width, 10);
    assert_eq!(rect.height, 5);
    assert_eq!(rect.x, 0);
    assert_eq!(rect.y, 0);
}

#[test]
fn centered_rect_abs_centres_small_popup() {
    let area = Rect {
        x: 2,
        y: 1,
        width: 80,
        height: 24,
    };
    let rect = centered_rect_abs(20, 6, area);
    assert_eq!((rect.x, rect.y, rect.width, rect.height), (32, 10, 20, 6));
    let tiny = centered_rect_abs(1, 1, area);
    assert_eq!((tiny.width, tiny.height), (10, 5));
}

#[test]
fn centered_rect_by_height_takes_percent_of_width() {
    let area = Rect {
        x: 0,
        y: 0,
        width: 100,
        height: 40,
    };
    let rect = centered_rect_by_height(50, 7, area);
    assert_eq!((rect.x, rect.y, rect.width, rect.height), (25, 16, 50, 7));
}

#[test]
fn padded_rect_shrinks_every_side() {
    let area = Rect {
        x: 5,
        y: 5,
        width: 10,
        height: 1,
    };
    let r = padded_rect(area, 1);
    assert_eq!((r.x, r.y, r.width, r.height), (6, 6, 8, 0));
}

#[test]
fn saved_list_window_follows_selection() {
    assert_eq!(saved_list_window(0, 5, 0), (0, 0));
    assert_eq!(saved_list_window(2, 5, 10), (0, 5));
    assert_eq!(saved_list_window(7, 5, 10), (3, 8));
    assert_eq!(saved_list_window(9, 5, 10), (5, 10));
    assert_eq!(saved_list_window(3, 0, 10), (0, 0));
}

#[test]
fn form_scroll_keeps_active_row_visible() {
    assert_eq!(form_scroll(8, 10, 7), 0);
    assert_eq!(form_scroll(12, 5, 2), 0);
    assert_eq!(form_scroll(12, 5, 8), 4);
    assert_eq!(form_scroll(12, 5, 11), 7);
}

#[test]
fn centered_rect_takes_the_middle_share_of_both_axes() {
    let area = Rect {
        x: 0,
        y: 0,
        width: 100,
        height: 40,
    };
    let rect = centered_rect(60, 90, area);
    assert_eq!(rect.x, 20);
    assert_eq!(rect.width, 60);
    assert_eq!(rect.y, 2);
    assert_eq!(rect.height, 36);
}

#[test]
fn centered_rect_matches_ratatui_layout() {
    let area = ratatui::layout::Rect::new(3, 1, 117, 33);
    let rows = Layout::default()
        .direction(Direction::Vertical)
        .constraints([Constraint::Percentage(15), Constraint::Percentage(70), Constraint::Percentage(15)])
        .split(area);
    let expected = Layout::default()
        .direction(Direction::Horizontal)
        .constraints([Constraint::Percentage(20), Constraint::Percentage(60), Constraint::Percentage(20)])
        .split(rows[1])[1];
    let rect = centered_rect(
        60,
        70,
        Rect {
            x: 3,
            y: 1,
            width: 117,
            height: 33,
        },
    );
    assert_eq!((rect.x, rect.y, rect.width, rect.height), (expected.x, expected.y, expected.width, expected.height));
}

#[test]
fn trim_text_matches_str_trim() {
    for s in ["", "   ", "  a b  ", "\t\nhost\r\n", "\u{3000}x\u{2003}", "plain", " \u{a0}y"] {
        assert_eq!(trim_text(s), s.trim());
    }
}
