use super_simple_ssh::model::{epoch_or_zero, 
    connection_key, format_history_entry, history_entry_text, history_from_timestamps,
    same_identity, AuthConfig, ConnectionConfig, HistoryEntry, HistoryState,
};

fn password_connection(user: &str, host: &str, password: &str) -> ConnectionConfig {
    ConnectionConfig {
        name: String::new(),
        user: user.to_string(),
        host: host.to_string(),
        auth: AuthConfig::Password {
            password: password.to_string(),
        },
        history: vec![],
        last_remote_dir: None,
    }
}

#[test]
fn label_prefers_name_over_host() {
    let mut conn = password_connection("u", "host", "pw");
    assert_eq!(conn.label(), "host");
    conn.name = "friendly".to_string();
    assert_eq!(conn.label(), "friendly");
}

#[test]
fn label_falls_back_to_host_for_blank_name() {
    let mut conn = password_connection("u", "host", "pw");
    conn.name = "   ".to_string();
    assert_eq!(conn.label(), "host");
}

#[test]
fn same_identity_matches_auth_type() {
    let base = password_connection("u", "h", "pw");
    let other = ConnectionConfig {
        auth: AuthConfig::PrivateKey {
            path: "/k".to_string(),
            password: None,
        },
        ..base.clone()
    };
    assert!(!same_identity(&base, &other));
    let other_pw = ConnectionConfig {
        auth: AuthConfig::Password {
            password: "pw2".to_string(),
        },
        ..base.clone()
    };
    assert!(same_identity(&base, &other_pw));
}

#[test]
fn same_identity_compares_key_paths() {
    let a = ConnectionConfig {
        auth: AuthConfig::PrivateKey {
            path: "/k1".to_string(),
            password: None,
        },
        ..password_connection("u", "h", "pw")
    };
    let b = ConnectionConfig {
        auth: AuthConfig::PrivateKey {
            path: "/k1".to_string(),
            password: Some("secret".to_string()),
        },
        ..password_connection("u", "h", "pw")
    };
    let c = ConnectionConfig {
        auth: AuthConfig::PrivateKey {
            path: "/k2".to_string(),
            password: None,
        },
        ..password_connection("u", "h", "pw")
    };
    assert!(same_identity(&a, &b));
    assert!(!same_identity(&a, &c));
    assert!(!same_identity(&a, &password_connection("v", "h", "pw")));
}

#[test]
fn connection_key_includes_auth_hint() {
    let conn = password_connection("u", "h", "pw");
    assert!(connection_key(&conn).contains("u@h|pw"));
}

#[test]
fn connection_key_of_key_authentication() {
    let conn = ConnectionConfig {
        auth: AuthConfig::PrivateKey {
            path: "~/.ssh/id".to_string(),
            password: None,
        },
        ..password_connection("root", "example.org", "pw")
    };
    assert_eq!(connection_key(&conn), "root@example.org|pk:~/.ssh/id");
}

#[test]
fn same_identity_gives_same_key() {
    let a = password_connection("u", "h", "one");
    let b = password_connection("u", "h", "two");
    assert!(same_identity(&a, &b));
    assert_eq!(connection_key(&a), connection_key(&b));
}

#[test]
fn format_history_entry_includes_state() {
    let entry = HistoryEntry {
        ts: 0,
        state: HistoryState::Failure,
    };
    let formatted = format_history_entry(&entry);
    assert!(formatted.contains("failed"));
    assert!(formatted.contains(" | "));
}

#[test]
fn history_entry_text_names_state() {
    assert_eq!(
        history_entry_text("2024-01-02 03:04:05", HistoryState::Success),
        "2024-01-02 03:04:05 | success"
    );
    assert_eq!(
        history_entry_text("2024-01-02 03:04:05", HistoryState::Failure),
        "2024-01-02 03:04:05 | failed"
    );
}

#[test]
fn history_from_timestamps_marks_success() {
    let history = history_from_timestamps(&vec![1, 2]);
    assert_eq!(history.len(), 2);
    assert_eq!(history[0].ts, 1);
    assert_eq!(history[1].ts, 2);
    assert!(matches!(history[0].state, HistoryState::Success));
}

#[test]
fn epoch_reading_before_epoch_gives_zero() {
    assert_eq!(epoch_or_zero(Some(1_700_000_000)), 1_700_000_000);
    assert_eq!(epoch_or_zero(None), 0);
}
