use super_simple_ssh::model::{TransferDirection, TransferStep};
use super_simple_ssh::transfer::{file_name, progress_label, transfer_done_notice, transfer_summary, TransferState};

#[test]
fn transfer_steps() {
    let mut t = TransferState::start(TransferDirection::Upload);
    assert_eq!(t.step, TransferStep::PickSource);
    t.select_source_path("/home/me/report.pdf".to_string(), false);
    assert_eq!(t.step, TransferStep::PickTarget);
    assert!(t.select_target_dir("/srv/in".to_string()));
    assert_eq!(t.step, TransferStep::Confirm);
    t.set_size(2048);
    assert_eq!(t.back_to_target(), "/srv/in");
    assert_eq!(t.step, TransferStep::PickTarget);
    assert!(!t.select_target_dir("/".to_string()));
    t.begin();
    assert_eq!(t.step, TransferStep::Transferring);
    assert_eq!(t.progress_bytes, 0);
    t.back_to_source();
    assert_eq!(t.step, TransferStep::PickSource);
    t.select_source_remote("/var/log/syslog".to_string(), false);
    assert_eq!(t.size_bytes, None);
    let mut d = TransferState::start(TransferDirection::Download);
    assert_eq!(d.back_to_target(), "/");
    assert!(d.select_target_local_dir("/tmp".to_string()));
}

#[test]
fn progress_logs_every_mebibyte() {
    let mut t = TransferState::start(TransferDirection::Upload);
    assert_eq!(t.record_bytes(1000, 0), None);
    assert_eq!(t.record_bytes(1_048_576, 0), Some(1_049_576));
    assert_eq!(t.record_bytes(10, 1_049_576), None);
    assert_eq!(t.progress_bytes, 1_049_586);
    t.progress_bytes = u64::MAX - 1;
    assert_eq!(t.record_bytes(5, u64::MAX - 2), None);
    assert_eq!(t.progress_bytes, u64::MAX);
}

#[test]
fn file_names_of_paths() {
    assert_eq!(file_name("/home/me/report.pdf"), Some("report.pdf".to_string()));
    assert_eq!(file_name("/srv/data/"), Some("data".to_string()));
    assert_eq!(file_name("docs/./"), Some("docs".to_string()));
    assert_eq!(file_name("plain"), Some("plain".to_string()));
    assert_eq!(file_name("/"), None);
    assert_eq!(file_name(""), None);
    assert_eq!(file_name("a/.."), None);
    assert_eq!(file_name("./"), None);
    assert_eq!(file_name("/."), None);
    assert_eq!(file_name(".hidden"), Some(".hidden".to_string()));
}

#[test]
fn file_name_agrees_with_std_paths() {
    for p in [
        "/home/me/report.pdf", "/srv/data/", "docs/./", "plain", "/", "", "a/..", "./", "/.",
        ".hidden", "a//b", "a/b/.", "..", "x/../y", "/a/./", "...",
    ] {
        let expected = std::path::Path::new(p)
            .file_name()
            .map(|n| n.to_string_lossy().into_owned());
        assert_eq!(file_name(p), expected, "path {p:?}");
    }
}

#[test]
fn summary_of_upload() {
    let mut t = TransferState::start(TransferDirection::Upload);
    assert_eq!(
        transfer_summary(&t),
        ("-".to_string(), "-".to_string(), "-".to_string())
    );
    t.select_source_path("/home/me/report.pdf".to_string(), false);
    t.select_target_dir("/".to_string());
    assert_eq!(
        transfer_summary(&t),
        (
            "/home/me/report.pdf".to_string(),
            "/report.pdf".to_string(),
            "calculating size...".to_string()
        )
    );
    t.select_target_dir("/srv/in".to_string());
    t.set_size(1536);
    assert_eq!(transfer_summary(&t).1, "/srv/in/report.pdf");
    assert_eq!(transfer_summary(&t).2, "1.5 KB");
}

#[test]
fn summary_of_download() {
    let mut t = TransferState::start(TransferDirection::Download);
    t.select_source_remote("/var/log/".to_string(), true);
    t.select_target_local_dir("/".to_string());
    assert_eq!(transfer_summary(&t).0, "/var/log/");
    assert_eq!(transfer_summary(&t).1, "//log");
    t.select_target_local_dir("/tmp".to_string());
    t.begin();
    assert_eq!(transfer_summary(&t).1, "/tmp/log");
    assert_eq!(transfer_summary(&t).2, "-");
    let mut odd = TransferState::start(TransferDirection::Download);
    odd.select_source_remote("/".to_string(), true);
    odd.select_target_local_dir("/tmp".to_string());
    assert_eq!(transfer_summary(&odd).1, "/tmp/item");
}

#[test]
fn progress_labels() {
    assert_eq!(progress_label(5, None), "0 B");
    assert_eq!(progress_label(5, Some(0)), "0 B");
    assert_eq!(progress_label(512, Some(2048)), "512 B / 2.0 KB");
    assert_eq!(progress_label(4096, Some(2048)), "2.0 KB / 2.0 KB");
}

#[test]
fn done_notices() {
    let ok = transfer_done_notice(Ok(()));
    assert_eq!(ok.title, "Transfer complete");
    assert_eq!(ok.message, "Transfer finished successfully");
    let failed = transfer_done_notice(Err("broken pipe".to_string()));
    assert_eq!(failed.title, "Transfer failed");
    assert_eq!(failed.message, "broken pipe");
}
