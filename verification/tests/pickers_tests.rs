use super_simple_ssh::backend::{home_fallback, open_remote_picker_at, picker_after_listings, MockSshBackend, PickerOpening, SshBackend};
use super_simple_ssh::keys::Key;
use super_simple_ssh::model::{AuthConfig, ConnectionConfig, KeyCandidate, RemoteEntry, TransferDirection, TransferStep};
use super_simple_ssh::pickers::{
    file_picker_command, move_down, move_up, FilePickerCommand, KeyPickerCommand, KeyPickerState,
    RemotePickerCommand, RemotePickerState,
};

fn entry(name: &str, path: &str, is_dir: bool) -> RemoteEntry {
    RemoteEntry {
        name: name.to_string(),
        path: path.to_string(),
        is_dir,
    }
}

fn connection() -> ConnectionConfig {
    ConnectionConfig {
        name: "test".to_string(),
        user: "root".to_string(),
        host: "host".to_string(),
        auth: AuthConfig::Password {
            password: "pw".to_string(),
        },
        history: vec![],
        last_remote_dir: None,
    }
}

#[test]
fn open_remote_picker_falls_back_to_home() {
    let mut backend = MockSshBackend::new();
    backend.set_list("/home/root", Err("missing".to_string()));
    backend.set_list("/home/user", Ok(vec![entry("etc", "/home/user/etc", true)]));
    backend.set_home(Some("/home/user".to_string()));
    let conn = connection();
    let (picker, opening) = open_remote_picker_at(&backend, Some(&conn), "/home/root".to_string(), false);
    assert_eq!(opening, PickerOpening::Loaded);
    assert_eq!(picker.cwd, "/home/user");
    assert_eq!(picker.entries, vec![entry("etc", "/home/user/etc", true)]);
    assert!(!picker.loading);
}

#[test]
fn open_remote_picker_uses_listing_or_root() {
    let mut backend = MockSshBackend::new();
    backend.set_list("/srv", Ok(vec![entry("a", "/srv/a", false)]));
    let conn = connection();
    let (picker, opening) = open_remote_picker_at(&backend, Some(&conn), "/srv".to_string(), false);
    assert_eq!(opening, PickerOpening::Loaded);
    assert_eq!(picker.cwd, "/srv");
    backend.set_list("/gone", Err("no such dir".to_string()));
    backend.set_home(Some("   ".to_string()));
    let (picker, opening) = open_remote_picker_at(&backend, Some(&conn), "/gone".to_string(), true);
    assert_eq!(opening, PickerOpening::FetchRoot);
    assert_eq!(picker.cwd, "/");
    assert!(picker.loading && picker.only_dirs);
    let (picker, opening) = open_remote_picker_at(&backend, None, "/srv".to_string(), false);
    assert_eq!(opening, PickerOpening::NotConnected);
    assert_eq!(picker.cwd, "/srv");
}

#[test]
fn mock_backend_answers_what_it_was_told() {
    let mut backend = MockSshBackend::new();
    let conn = connection();
    assert_eq!(backend.list_remote_dir(&conn, "/x", false, false), Ok(vec![]));
    backend.set_list("/x", Ok(vec![entry("a", "/x/a", true)]));
    backend.set_list("/x", Ok(vec![entry("b", "/x/b", true)]));
    assert_eq!(backend.listing("/x"), Ok(vec![entry("b", "/x/b", true)]));
    backend.set_list("/x", Err("denied".to_string()));
    assert_eq!(backend.listing("/x"), Err("denied".to_string()));
    assert_eq!(backend.remote_home_dir(&conn), Ok(None));
    backend.set_has_subdirs(true);
    assert_eq!(backend.remote_has_subdirectories(&conn, "/x"), Ok(true));
    backend.set_size(Ok(42));
    assert_eq!(backend.remote_size(&conn, "/x", true), Ok(42));
    backend.set_size(Err("stat failed".to_string()));
    assert_eq!(backend.remote_size(&conn, "/x", true), Err("stat failed".to_string()));
    backend.set_size(Ok(7));
    assert_eq!(backend.remote_size(&conn, "/x", false), Ok(7));
}

#[test]
fn home_fallback_trims_and_skips_blank() {
    assert_eq!(home_fallback(Ok(Some(" /home/u \n".to_string()))), Some("/home/u".to_string()));
    assert_eq!(home_fallback(Ok(Some("  ".to_string()))), None);
    assert_eq!(home_fallback(Ok(None)), None);
    assert_eq!(home_fallback(Err("x".to_string())), None);
}

#[test]
fn selection_moves() {
    assert_eq!(move_up(0), 0);
    assert_eq!(move_up(3), 2);
    assert_eq!(move_down(0, 2), 1);
    assert_eq!(move_down(1, 2), 1);
    assert_eq!(move_down(0, 0), 0);
}

fn picker_with(entries: Vec<RemoteEntry>, cwd: &str, only_dirs: bool) -> RemotePickerState {
    let mut p = RemotePickerState::open_at(cwd.to_string(), only_dirs);
    p.apply_listing(entries);
    p
}

#[test]
fn remote_picker_navigation() {
    let mut p = picker_with(
        vec![entry("docs", "/home/u/docs", true), entry("a.txt", "/home/u/a.txt", false)],
        "/home/u",
        false,
    );
    assert_eq!(p.handle_key(Key::Down, None), RemotePickerCommand::Stay);
    assert_eq!(p.selected, 1);
    assert_eq!(p.handle_key(Key::Down, None), RemotePickerCommand::Stay);
    assert_eq!(p.selected, 1);
    assert_eq!(p.handle_key(Key::Up, None), RemotePickerCommand::Stay);
    assert_eq!(p.handle_key(Key::Enter, None), RemotePickerCommand::Fetch("/home/u/docs".to_string()));
    assert_eq!(p.cwd, "/home/u/docs");
    assert!(p.loading && p.entries.is_empty() && p.selected == 0);
    assert_eq!(p.handle_key(Key::Backspace, None), RemotePickerCommand::Fetch("/home/u".to_string()));
    assert_eq!(p.cwd, "/home/u");
    let mut root = picker_with(vec![], "/", false);
    assert_eq!(root.handle_key(Key::Backspace, None), RemotePickerCommand::Stay);
    assert_eq!(root.handle_key(Key::Enter, None), RemotePickerCommand::Stay);
    assert_eq!(
        root.handle_key(Key::Esc, Some((TransferDirection::Download, TransferStep::PickSource))),
        RemotePickerCommand::Close { cancel_transfer: true }
    );
}

#[test]
fn remote_picker_choices_during_transfer() {
    let download = Some((TransferDirection::Download, TransferStep::PickSource));
    let upload_target = Some((TransferDirection::Upload, TransferStep::PickTarget));
    let mut p = picker_with(
        vec![entry("docs", "/srv/docs", true), entry("a.txt", "/srv/a.txt", false)],
        "/srv",
        false,
    );
    p.selected = 1;
    assert_eq!(
        p.handle_key(Key::Enter, download),
        RemotePickerCommand::ChooseDownloadSource { dir: "/srv".to_string(), path: "/srv/a.txt".to_string() }
    );
    assert_eq!(p.handle_key(Key::Enter, None), RemotePickerCommand::Stay);
    assert_eq!(p.handle_key(Key::Char('s'), download), RemotePickerCommand::Stay);
    p.selected = 0;
    assert_eq!(
        p.handle_key(Key::Char('s'), download),
        RemotePickerCommand::ChooseDownloadSourceDir("/srv/docs".to_string())
    );
    assert_eq!(
        p.handle_key(Key::Char('s'), upload_target),
        RemotePickerCommand::ChooseUploadTarget("/srv/docs".to_string())
    );
    assert_eq!(p.handle_key(Key::Char('b'), upload_target), RemotePickerCommand::BackToLocalSource);
    assert_eq!(p.handle_key(Key::Char('b'), download), RemotePickerCommand::Stay);
    let mut dirs_only = picker_with(vec![entry("docs", "/srv/docs", true)], "/srv", true);
    assert_eq!(
        dirs_only.handle_key(Key::Enter, upload_target),
        RemotePickerCommand::CheckSubdirs("/srv/docs".to_string())
    );
    assert_eq!(dirs_only.cwd, "/srv");
}

#[test]
fn fetched_listing_keeps_directories_when_asked() {
    let mut p = RemotePickerState::open_at("/srv".to_string(), true);
    p.apply_fetch(Ok(vec![entry("a", "/srv/a", false), entry("b", "/srv/b", true)]));
    assert_eq!(p.entries, vec![entry("b", "/srv/b", true)]);
    assert!(!p.loading);
    p.apply_fetch(Err("timeout".to_string()));
    assert_eq!(p.error, Some("timeout".to_string()));
    assert_eq!(p.entries.len(), 1);
    let mut all = RemotePickerState::open_at("/srv".to_string(), false);
    all.apply_fetch(Ok(vec![entry("a", "/srv/a", false)]));
    assert_eq!(all.entries.len(), 1);
    assert_eq!(all.error, None);
}

#[test]
fn file_picker_commands() {
    let dirs = vec![true, false];
    let upload = Some((TransferDirection::Upload, TransferStep::PickSource));
    let download_target = Some((TransferDirection::Download, TransferStep::PickTarget));
    assert_eq!(file_picker_command(Key::Down, None, 0, &dirs), FilePickerCommand::Select(1));
    assert_eq!(file_picker_command(Key::Up, None, 0, &dirs), FilePickerCommand::Select(0));
    assert_eq!(file_picker_command(Key::Backspace, None, 0, &dirs), FilePickerCommand::OpenParent);
    assert_eq!(
        file_picker_command(Key::Enter, None, 0, &dirs),
        FilePickerCommand::OpenDir { index: 0, check_subdirs: false }
    );
    assert_eq!(
        file_picker_command(Key::Enter, download_target, 0, &dirs),
        FilePickerCommand::OpenDir { index: 0, check_subdirs: true }
    );
    assert_eq!(file_picker_command(Key::Enter, None, 1, &dirs), FilePickerCommand::ChooseKeyFile(1));
    assert_eq!(file_picker_command(Key::Enter, upload, 1, &dirs), FilePickerCommand::ChooseUploadFile(1));
    assert_eq!(file_picker_command(Key::Enter, download_target, 1, &dirs), FilePickerCommand::Stay);
    assert_eq!(file_picker_command(Key::Char('s'), upload, 0, &dirs), FilePickerCommand::ChooseUploadDir(0));
    assert_eq!(
        file_picker_command(Key::Char('s'), download_target, 0, &dirs),
        FilePickerCommand::ChooseDownloadTarget(0)
    );
    assert_eq!(file_picker_command(Key::Char('s'), upload, 1, &dirs), FilePickerCommand::Stay);
    assert_eq!(file_picker_command(Key::Char('b'), download_target, 0, &dirs), FilePickerCommand::BackToRemoteSource);
    assert_eq!(file_picker_command(Key::Char('b'), upload, 0, &dirs), FilePickerCommand::Stay);
    assert_eq!(
        file_picker_command(Key::Esc, upload, 0, &dirs),
        FilePickerCommand::Close { cancel_transfer: true }
    );
    assert_eq!(file_picker_command(Key::Enter, None, 5, &dirs), FilePickerCommand::Stay);
}

#[test]
fn key_picker_keys() {
    let mut picker = KeyPickerState {
        keys: vec![
            KeyCandidate { path: "/k1".to_string(), password: None },
            KeyCandidate { path: "/k2".to_string(), password: None },
        ],
        selected: 0,
    };
    assert_eq!(picker.handle_key(Key::Up), KeyPickerCommand::Stay);
    assert_eq!(picker.handle_key(Key::Down), KeyPickerCommand::Stay);
    assert_eq!(picker.handle_key(Key::Down), KeyPickerCommand::Stay);
    assert_eq!(picker.selected, 1);
    assert_eq!(picker.handle_key(Key::Enter), KeyPickerCommand::Choose(1));
    assert_eq!(picker.handle_key(Key::Esc), KeyPickerCommand::Close);
}

#[test]
fn picker_after_listings_prefers_first_then_home_then_root() {
    let etc = entry("etc", "/home/user/etc", true);
    let tmp = entry("tmp", "/tmp", true);
    let (p, o) = picker_after_listings(
        "/srv".to_string(),
        true,
        Ok(vec![tmp.clone()]),
        Some("/home/user".to_string()),
        Some(Ok(vec![etc.clone()])),
    );
    assert_eq!(o, PickerOpening::Loaded);
    assert_eq!(p.cwd, "/srv");
    assert_eq!(p.entries, vec![tmp.clone()]);
    assert!(p.only_dirs && !p.show_hidden && !p.loading && p.error.is_none());

    let (p, o) = picker_after_listings(
        "/srv".to_string(),
        false,
        Err("denied".to_string()),
        Some("/home/user".to_string()),
        Some(Ok(vec![etc.clone()])),
    );
    assert_eq!(o, PickerOpening::Loaded);
    assert_eq!(p.cwd, "/home/user");
    assert_eq!(p.entries, vec![etc.clone()]);

    let (p, o) = picker_after_listings(
        "/srv".to_string(),
        false,
        Err("denied".to_string()),
        Some("/home/user".to_string()),
        Some(Err("also denied".to_string())),
    );
    assert_eq!(o, PickerOpening::FetchRoot);
    assert_eq!(p.cwd, "/");
    assert!(p.entries.is_empty() && p.loading && p.error.is_none());

    let (p, o) = picker_after_listings("/srv".to_string(), false, Err("denied".to_string()), None, None);
    assert_eq!(o, PickerOpening::FetchRoot);
    assert_eq!(p.cwd, "/");
}
