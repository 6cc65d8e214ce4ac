use super_simple_ssh::layout::Rect;
use super_simple_ssh::model::{AuthKind, Field, MasterField};
use super_simple_ssh::paths::{child_path, home_relative, ssh_address, upload_base, upload_child_path};
use super_simple_ssh::screens::{
    connection_form_title, master_cursor_target, master_value_width,
    active_row, connection_commands, cursor_position, field_display, focus_marker, form_rows,
    modal_area_height, modal_width, padded_label, saved_row_marker, value_width, FormRows,
};

#[test]
fn modal_sizes() {
    assert_eq!(modal_width(100), 70);
    assert_eq!(modal_width(20), 30);
    assert_eq!(modal_width(1000), 655);
    assert_eq!(modal_width(u16::MAX), 655);
    assert_eq!(value_width(70), 53);
    assert_eq!(value_width(10), 0);
    assert_eq!(modal_area_height(12, 40), 12);
    assert_eq!(modal_area_height(3, 40), 10);
    assert_eq!(modal_area_height(60, 40), 28);
    assert_eq!(modal_area_height(60, 8), 6);
}

#[test]
fn form_rows_follow_auth_choice() {
    let rows = form_rows(AuthKind::PasswordOnly, false);
    assert_eq!(
        rows,
        FormRows { name: 0, user: 1, host: 2, auth: 3, key_path: None, password: Some(4), test: 6, save: 7, lines: 8 }
    );
    let rows = form_rows(AuthKind::PrivateKeyWithPassword, true);
    assert_eq!((rows.key_path, rows.password, rows.test, rows.save, rows.lines), (Some(4), Some(5), 7, 8, 11));
    let rows = form_rows(AuthKind::PrivateKey, false);
    assert_eq!(active_row(rows, Field::Password), None);
    assert_eq!(active_row(rows, Field::KeyPath), Some(4));
    assert_eq!(active_row(rows, Field::ActionSave), Some(7));
}

#[test]
fn field_text() {
    assert_eq!(field_display("secret", true, 10), "******");
    assert_eq!(field_display("", true, 10), "");
    assert_eq!(field_display("a long host name", false, 8), "a lon...");
    assert_eq!(padded_label("User", 9), "User     : ");
    assert_eq!(padded_label("Very long label", 9), "Very long label: ");
    assert_eq!(focus_marker(true), "> ");
    assert_eq!(focus_marker(false), "  ");
}

#[test]
fn cursor_follows_scroll() {
    let area = Rect { x: 10, y: 5, width: 50, height: 4 };
    assert_eq!(cursor_position(area, 0, Some(1), 3), Some((26, 6)));
    assert_eq!(cursor_position(area, 2, Some(1), 3), None);
    assert_eq!(cursor_position(area, 2, Some(5), 0), Some((23, 8)));
    assert_eq!(cursor_position(area, 2, Some(6), 0), None);
    assert_eq!(cursor_position(area, 0, None, 0), None);
}

#[test]
fn saved_list_words() {
    assert_eq!(saved_row_marker(false, true), "! ");
    assert_eq!(saved_row_marker(true, true), "  ");
    assert_eq!(saved_row_marker(false, false), "  ");
    assert_eq!(connection_commands(true), "(n)ew | (e)dit | (c)ancel | (x)delete");
    assert_eq!(connection_commands(false), "(n)ew | (e)dit | (c)onnect | (x)delete");
}

#[test]
fn transfer_paths() {
    assert_eq!(ssh_address("example.org"), "example.org:22");
    assert_eq!(upload_base("/srv/in//", "a.txt"), "/srv/in/a.txt");
    assert_eq!(upload_base("/", "a.txt"), "/a.txt");
    assert_eq!(child_path("/srv/", "x"), "/srv/x");
    assert_eq!(child_path("/srv", "x"), "/srv/x");
    assert_eq!(upload_child_path("/srv/", "x"), "/srv//x");
    assert_eq!(home_relative("~/.ssh/id"), Some(".ssh/id".to_string()));
    assert_eq!(home_relative("~user/x"), None);
    assert_eq!(home_relative("/abs"), None);
}

#[test]
fn connection_form_title_follows_editing() {
    assert_eq!(connection_form_title(true), "Edit connection");
    assert_eq!(connection_form_title(false), "New connection");
}

#[test]
fn master_form_value_width_and_cursor() {
    assert_eq!(master_value_width(50), 37);
    assert_eq!(master_value_width(10), 0);
    assert_eq!(master_cursor_target(MasterField::Current, 3, 4, 5), Some((0, 3)));
    assert_eq!(master_cursor_target(MasterField::New, 3, 4, 5), Some((1, 4)));
    assert_eq!(master_cursor_target(MasterField::Confirm, 3, 4, 5), Some((2, 5)));
    assert_eq!(master_cursor_target(MasterField::ActionSave, 3, 4, 5), None);
}
