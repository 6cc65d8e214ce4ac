use super_simple_ssh::catalog::{
    auth_summary, connection_status, history_page_label, history_page_size, history_range,
    history_window, latest_timestamp, max_history_page, position_same_identity,
    tab_after_disconnect, ConnectionList,
};
use super_simple_ssh::model::{connection_key, AuthConfig, ConnectionConfig, HistoryEntry, HistoryState};

fn conn(name: &str, user: &str, host: &str, times: &[u64]) -> ConnectionConfig {
    ConnectionConfig {
        name: name.to_string(),
        user: user.to_string(),
        host: host.to_string(),
        auth: AuthConfig::Password {
            password: "pw".to_string(),
        },
        history: times
            .iter()
            .map(|&ts| HistoryEntry {
                ts,
                state: HistoryState::Success,
            })
            .collect(),
        last_remote_dir: None,
    }
}

fn key_conn(user: &str, host: &str, path: &str, password: Option<&str>) -> ConnectionConfig {
    ConnectionConfig {
        auth: AuthConfig::PrivateKey {
            path: path.to_string(),
            password: password.map(|p| p.to_string()),
        },
        ..conn("", user, host, &[])
    }
}

fn names(list: &ConnectionList) -> Vec<String> {
    list.connections.iter().map(|c| c.name.clone()).collect()
}

#[test]
fn latest_timestamp_takes_maximum() {
    assert_eq!(latest_timestamp(&vec![]), 0);
    assert_eq!(latest_timestamp(&conn("a", "u", "h", &[5, 9, 3]).history), 9);
}

#[test]
fn sort_orders_by_recent_use_keeping_ties() {
    let mut list = ConnectionList {
        connections: vec![
            conn("a", "u", "h1", &[10]),
            conn("b", "u", "h2", &[30, 5]),
            conn("c", "u", "h3", &[]),
            conn("d", "u", "h4", &[10]),
            conn("e", "u", "h5", &[20]),
        ],
        selected: 0,
    };
    list.sort_connections_by_recent(None);
    assert_eq!(names(&list), vec!["b", "e", "a", "d", "c"]);
    assert_eq!(list.selected, 0);
}

#[test]
fn sort_selects_by_key_or_clamps() {
    let mut list = ConnectionList {
        connections: vec![conn("a", "u", "h1", &[1]), conn("b", "u", "h2", &[2])],
        selected: 7,
    };
    let key = connection_key(&list.connections[0]);
    list.sort_connections_by_recent(Some(key));
    assert_eq!(names(&list), vec!["b", "a"]);
    assert_eq!(list.selected, 1);
    list.sort_connections_by_recent(Some("nobody@nowhere|pw".to_string()));
    assert_eq!(list.selected, 1);
    list.selected = 9;
    list.sort_connections_by_recent(None);
    assert_eq!(list.selected, 1);
}

#[test]
fn connected_host_moves_to_top() {
    let mut list = ConnectionList {
        connections: vec![
            conn("a", "u", "h1", &[100]),
            conn("b", "u", "h2", &[200]),
            conn("c", "u", "h3", &[50]),
        ],
        selected: 2,
    };
    let chosen = list.connections[2].clone();
    let saved = list.record_success(chosen, 300);
    assert_eq!(saved.history.len(), 2);
    list.sort_connections_by_recent(Some(connection_key(&saved)));
    assert_eq!(names(&list), vec!["c", "b", "a"]);
    assert_eq!(list.selected, 0);
    assert!(matches!(list.connections[0].history[1].state, HistoryState::Success));
}

#[test]
fn record_success_adds_new_connection() {
    let mut list = ConnectionList {
        connections: vec![conn("a", "u", "h1", &[1])],
        selected: 0,
    };
    let saved = list.record_success(conn("z", "x", "new", &[]), 42);
    assert_eq!(list.connections.len(), 2);
    assert_eq!(list.connections[1], saved);
    assert_eq!(saved.history[0].ts, 42);
}

#[test]
fn record_failure_only_touches_known_identity() {
    let mut list = ConnectionList {
        connections: vec![conn("a", "u", "h1", &[1])],
        selected: 0,
    };
    assert!(list.record_failure(&conn("other name", "u", "h1", &[]), 9));
    assert_eq!(list.connections[0].history.len(), 2);
    assert!(matches!(list.connections[0].history[1].state, HistoryState::Failure));
    assert!(!list.record_failure(&conn("a", "u", "elsewhere", &[]), 9));
    assert_eq!(list.connections.len(), 1);
}

#[test]
fn upsert_replaces_same_identity() {
    let mut list = ConnectionList {
        connections: vec![conn("a", "u", "h1", &[1]), conn("b", "u", "h2", &[2])],
        selected: 1,
    };
    list.upsert_connection(conn("renamed", "u", "h2", &[]));
    assert_eq!(names(&list), vec!["a", "renamed"]);
    list.upsert_connection(conn("c", "u", "h3", &[]));
    assert_eq!(names(&list), vec!["a", "renamed", "c"]);
    assert_eq!(list.selected, 1);
}

#[test]
fn apply_edit_keeps_history_and_last_dir() {
    let mut original = conn("a", "u", "h1", &[5, 6]);
    original.last_remote_dir = Some("/srv".to_string());
    let mut list = ConnectionList {
        connections: vec![original, conn("b", "u", "h2", &[2])],
        selected: 0,
    };
    list.apply_edit(0, conn("edited", "u2", "h9", &[]));
    assert_eq!(names(&list), vec!["b", "edited"]);
    assert_eq!(list.connections[1].history.len(), 2);
    assert_eq!(list.connections[1].last_remote_dir, Some("/srv".to_string()));
}

#[test]
fn remove_connection_keeps_selection_in_list() {
    let mut list = ConnectionList {
        connections: vec![conn("a", "u", "h1", &[]), conn("b", "u", "h2", &[])],
        selected: 1,
    };
    let removed = list.remove_connection(1).unwrap();
    assert_eq!(removed.name, "b");
    assert_eq!(list.selected, 0);
    assert!(list.remove_connection(5).is_none());
    assert_eq!(list.connections.len(), 1);
}

#[test]
fn selection_moves_within_list() {
    let mut list = ConnectionList {
        connections: vec![conn("a", "u", "h1", &[]), conn("b", "u", "h2", &[])],
        selected: 0,
    };
    assert!(!list.select_previous());
    assert!(list.select_next());
    assert_eq!(list.selected, 1);
    assert!(!list.select_next());
    assert!(list.select_previous());
    assert_eq!(list.selected, 0);
}

#[test]
fn last_remote_dir_and_start_dir() {
    let mut list = ConnectionList {
        connections: vec![conn("a", "alice", "h1", &[])],
        selected: 0,
    };
    let c = list.connections[0].clone();
    assert_eq!(list.remote_start_dir(&c), "/home/alice");
    assert!(list.set_last_remote_dir(&c, "/var/www".to_string()));
    assert_eq!(list.remote_start_dir(&c), "/var/www");
    assert!(!list.set_last_remote_dir(&conn("x", "bob", "h1", &[]), "/x".to_string()));
    assert_eq!(list.remote_start_dir(&conn("x", "bob", "h1", &[])), "/home/bob");
}

#[test]
fn key_candidates_list_each_path_once() {
    let list = ConnectionList {
        connections: vec![
            key_conn("u", "h1", "/k1", Some("one")),
            conn("p", "u", "h2", &[]),
            key_conn("u", "h3", "/k1", Some("two")),
            key_conn("u", "h4", "/k2", None),
        ],
        selected: 0,
    };
    let keys = list.collect_key_candidates();
    assert_eq!(keys.len(), 2);
    assert_eq!(keys[0].path, "/k1");
    assert_eq!(keys[0].password, Some("one".to_string()));
    assert_eq!(keys[1].path, "/k2");
    assert_eq!(keys[1].password, None);
}

#[test]
fn delete_label_uses_label_or_unknown() {
    let list = ConnectionList {
        connections: vec![conn("", "u", "host1", &[])],
        selected: 0,
    };
    assert_eq!(list.delete_label(Some(0)), "host1");
    assert_eq!(list.delete_label(Some(3)), "Unknown");
    assert_eq!(list.delete_label(None), "Unknown");
}

#[test]
fn position_same_identity_finds_first() {
    let list = vec![conn("a", "u", "h", &[]), conn("b", "u", "h", &[])];
    assert_eq!(position_same_identity(&list, &conn("z", "u", "h", &[])), Some(0));
    assert_eq!(position_same_identity(&list, &conn("z", "v", "h", &[])), None);
}

#[test]
fn history_paging() {
    assert_eq!(history_page_size(20, false), 12);
    assert_eq!(history_page_size(20, true), 11);
    assert_eq!(history_page_size(3, false), 1);
    assert_eq!(max_history_page(20, 0, false), 0);
    assert_eq!(max_history_page(20, 30, false), 2);
    assert_eq!(history_range(1, 20, 30, false), (12, 24));
    assert_eq!(history_range(5, 20, 30, false), (24, 30));
    assert_eq!(history_range(0, 20, 0, false), (0, 0));
    assert_eq!(history_page_label(5, 20, 30, false), (3, 3));
    assert_eq!(history_page_label(0, 20, 0, true), (1, 1));
}

#[test]
fn history_window_lists_newest_first() {
    let c = conn("a", "u", "h", &[1, 2, 3, 4]);
    let window = history_window(&c.history, 1, 3);
    let ts: Vec<u64> = window.iter().map(|e| e.ts).collect();
    assert_eq!(ts, vec![3, 2]);
}

#[test]
fn status_and_auth_words() {
    assert_eq!(connection_status(true, true, true), "Connected");
    assert_eq!(connection_status(false, true, false), "Failed");
    assert_eq!(connection_status(false, false, true), "Never connected");
    assert_eq!(connection_status(false, false, false), "Not connected");
    assert_eq!(auth_summary(&conn("a", "u", "h", &[]).auth), "Password");
    assert_eq!(auth_summary(&key_conn("u", "h", "/k", None).auth), "Private key");
    assert_eq!(auth_summary(&key_conn("u", "h", "/k", Some("x")).auth), "Private key + password");
}

#[test]
fn tab_after_disconnect_steps_left() {
    assert_eq!(tab_after_disconnect(0, 0), 0);
    assert_eq!(tab_after_disconnect(3, 1), 2);
    assert_eq!(tab_after_disconnect(1, 2), 1);
}
