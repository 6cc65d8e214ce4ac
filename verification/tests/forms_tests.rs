use super_simple_ssh::forms::{
    apply_edit, missing_fields_message, test_result, EditAction, FormCommand, FormError,
    MasterCommand, MasterPasswordState, NewConnectionState,
};
use super_simple_ssh::keys::{Key, KeyPress};
use super_simple_ssh::model::{AuthConfig, AuthKind, ConnectionConfig, Field, KeyCandidate, MasterField};

fn press(code: Key) -> KeyPress {
    KeyPress::plain(code)
}

fn type_text(form: &mut NewConnectionState, text: &str) {
    for c in text.chars() {
        assert_eq!(form.handle_key(press(Key::Char(c))), FormCommand::Stay);
    }
}

#[test]
fn apply_edit_pushes_and_pops() {
    let mut s = String::from("ab");
    apply_edit(&mut s, EditAction::Insert('ç'));
    assert_eq!(s, "abç");
    apply_edit(&mut s, EditAction::Backspace);
    apply_edit(&mut s, EditAction::Backspace);
    apply_edit(&mut s, EditAction::Backspace);
    apply_edit(&mut s, EditAction::Backspace);
    assert_eq!(s, "");
}

#[test]
fn focus_cycles_through_shown_fields() {
    let mut form = NewConnectionState::default();
    assert_eq!(form.active_field, Field::User);
    assert_eq!(
        form.active_fields(),
        vec![
            Field::Name,
            Field::User,
            Field::Host,
            Field::AuthType,
            Field::Password,
            Field::ActionTest,
            Field::ActionSave
        ]
    );
    form.handle_key(press(Key::BackTab));
    assert_eq!(form.active_field, Field::Name);
    form.handle_key(press(Key::Up));
    assert_eq!(form.active_field, Field::ActionSave);
    form.handle_key(press(Key::Tab));
    assert_eq!(form.active_field, Field::Name);
    for _ in 0..3 {
        form.handle_key(press(Key::Down));
    }
    assert_eq!(form.active_field, Field::AuthType);
}

#[test]
fn focus_round_trip_returns() {
    for kind in [AuthKind::PasswordOnly, AuthKind::PrivateKey, AuthKind::PrivateKeyWithPassword] {
        let mut form = NewConnectionState::default();
        form.auth_kind = kind;
        for field in form.active_fields() {
            form.active_field = field;
            form.advance_field(true);
            form.advance_field(false);
            assert_eq!(form.active_field, field);
            form.advance_field(false);
            form.advance_field(true);
            assert_eq!(form.active_field, field);
        }
    }
}

#[test]
fn auth_choice_cycles_on_arrows() {
    let mut form = NewConnectionState::default();
    form.handle_key(press(Key::Right));
    assert_eq!(form.auth_kind, AuthKind::PasswordOnly);
    form.active_field = Field::AuthType;
    form.handle_key(press(Key::Right));
    assert_eq!(form.auth_kind, AuthKind::PrivateKey);
    form.handle_key(press(Key::Right));
    assert_eq!(form.auth_kind, AuthKind::PrivateKeyWithPassword);
    form.handle_key(press(Key::Right));
    assert_eq!(form.auth_kind, AuthKind::PasswordOnly);
    form.handle_key(press(Key::Left));
    assert_eq!(form.auth_kind, AuthKind::PrivateKeyWithPassword);
    assert_eq!(form.active_fields().len(), 8);
}

#[test]
fn typing_edits_focused_field() {
    let mut form = NewConnectionState::default();
    type_text(&mut form, "root");
    assert_eq!(form.user, "root");
    form.handle_key(press(Key::Backspace));
    assert_eq!(form.user, "roo");
    let ctrl = KeyPress {
        code: Key::Char('x'),
        ctrl: true,
        shift: false,
    };
    form.handle_key(ctrl);
    assert_eq!(form.user, "roo");
    form.active_field = Field::AuthType;
    type_text(&mut form, "zz");
    assert_eq!(form.user, "roo");
    assert_eq!(form.name, "");
}

#[test]
fn form_commands() {
    let mut form = NewConnectionState::default();
    assert_eq!(form.handle_key(press(Key::Esc)), FormCommand::Cancel);
    form.active_field = Field::KeyPath;
    assert_eq!(form.handle_key(press(Key::F(2))), FormCommand::OpenFilePicker);
    assert_eq!(form.handle_key(press(Key::F(3))), FormCommand::OpenKeyPicker);
    form.active_field = Field::Host;
    assert_eq!(form.handle_key(press(Key::F(2))), FormCommand::Stay);
    assert_eq!(form.handle_key(press(Key::Enter)), FormCommand::Stay);
    form.active_field = Field::ActionTest;
    assert_eq!(form.handle_key(press(Key::Enter)), FormCommand::Test);
    form.active_field = Field::ActionSave;
    assert_eq!(form.handle_key(press(Key::Enter)), FormCommand::Save);
}

#[test]
fn build_connection_checks_fields_in_order() {
    let mut form = NewConnectionState::default();
    assert_eq!(form.build_connection_config().unwrap_err(), FormError::UserRequired);
    form.user = "  root ".to_string();
    assert_eq!(form.build_connection_config().unwrap_err(), FormError::HostRequired);
    form.host = " example.org".to_string();
    assert_eq!(form.build_connection_config().unwrap_err(), FormError::PasswordRequired);
    form.auth_kind = AuthKind::PrivateKey;
    assert_eq!(form.build_connection_config().unwrap_err(), FormError::KeyPathRequired);
    form.auth_kind = AuthKind::PrivateKeyWithPassword;
    form.key_path = "~/.ssh/id".to_string();
    assert_eq!(form.build_connection_config().unwrap_err(), FormError::KeyPasswordRequired);
    form.password = " secret ".to_string();
    form.name = " Box ".to_string();
    let conn = form.build_connection_config().unwrap();
    assert_eq!(conn.name, "Box");
    assert_eq!(conn.user, "root");
    assert_eq!(conn.host, "example.org");
    assert_eq!(
        conn.auth,
        AuthConfig::PrivateKey {
            path: "~/.ssh/id".to_string(),
            password: Some(" secret ".to_string())
        }
    );
    assert!(conn.history.is_empty());
}

#[test]
fn prefill_reads_saved_connection() {
    let conn = ConnectionConfig {
        name: "n".to_string(),
        user: "u".to_string(),
        host: "h".to_string(),
        auth: AuthConfig::PrivateKey {
            path: "/k".to_string(),
            password: None,
        },
        history: vec![],
        last_remote_dir: None,
    };
    let form = NewConnectionState::prefill_new_connection(&conn);
    assert_eq!(form.auth_kind, AuthKind::PrivateKey);
    assert_eq!(form.key_path, "/k");
    assert_eq!(form.password, "");
    assert_eq!(form.active_field, Field::User);
    assert_eq!(form.build_connection_config().unwrap().auth, conn.auth);
}

#[test]
fn key_candidate_fills_path_and_password() {
    let mut form = NewConnectionState::default();
    form.apply_key_candidate(&KeyCandidate {
        path: "/k1".to_string(),
        password: None,
    });
    assert_eq!(form.key_path, "/k1");
    assert_eq!(form.auth_kind, AuthKind::PasswordOnly);
    form.apply_key_candidate(&KeyCandidate {
        path: "/k2".to_string(),
        password: Some("pp".to_string()),
    });
    assert_eq!(form.key_path, "/k2");
    assert_eq!(form.password, "pp");
    assert_eq!(form.auth_kind, AuthKind::PrivateKeyWithPassword);
}

#[test]
fn master_form_keys() {
    let mut form = MasterPasswordState::default();
    assert_eq!(form.active_field, MasterField::Current);
    form.handle_key(press(Key::Char('a')));
    form.handle_key(press(Key::Tab));
    form.handle_key(press(Key::Char('b')));
    form.handle_key(press(Key::Down));
    form.handle_key(press(Key::Char('c')));
    assert_eq!((form.current.as_str(), form.new_password.as_str(), form.confirm.as_str()), ("a", "b", "c"));
    assert_eq!(form.handle_key(press(Key::Enter)), MasterCommand::Stay);
    form.handle_key(press(Key::Tab));
    assert_eq!(form.active_field, MasterField::ActionSave);
    assert_eq!(form.handle_key(press(Key::Enter)), MasterCommand::Submit);
    form.handle_key(press(Key::Tab));
    assert_eq!(form.active_field, MasterField::Current);
    form.handle_key(press(Key::BackTab));
    assert_eq!(form.active_field, MasterField::ActionSave);
    assert_eq!(form.handle_key(press(Key::Esc)), MasterCommand::Cancel);
}

#[test]
fn test_result_messages() {
    let missing = test_result(Err(FormError::HostRequired), Ok(()));
    assert!(!missing.success);
    assert_eq!(missing.message, "Missing fields: Host is required");
    let ok = test_result(Ok(()), Ok(()));
    assert!(ok.success);
    assert_eq!(ok.message, "Connection OK (not saved)");
    let failed = test_result(Ok(()), Err("timed out".to_string()));
    assert_eq!(failed.message, "Connection failed: timed out");
    assert_eq!(missing_fields_message(FormError::KeyPathRequired), "Missing fields: Private key path is required");
}
