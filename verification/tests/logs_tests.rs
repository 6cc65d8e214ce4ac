use chrono::Datelike;
use super_simple_ssh::logs::{log_line, notice_line_count, prune_log_lines, LogBuffer};

fn seconds(text: &str) -> (i64, u32) {
    let t = chrono::NaiveDateTime::parse_from_str(text, "%Y-%m-%d %H:%M:%S").unwrap();
    (t.and_utc().timestamp(), 0)
}

#[test]
fn log_line_joins_time_and_message() {
    assert_eq!(log_line("01-02 03:04:05", "Ready"), "01-02 03:04:05 | Ready");
}

#[test]
fn buffer_keeps_newest_hundred() {
    let mut buffer = LogBuffer::new();
    assert_eq!(buffer.last, "No logs yet");
    for i in 0..150 {
        buffer.push(format!("line {i}"));
    }
    assert_eq!(buffer.lines.len(), 100);
    assert_eq!(buffer.lines[0], "line 50");
    assert_eq!(buffer.lines[99], "line 149");
    assert_eq!(buffer.last, "line 149");
    assert_eq!(buffer.recent(3), vec!["line 149", "line 148", "line 147"]);
    assert_eq!(buffer.recent(1000).len(), 100);
}

#[test]
fn prune_keeps_recent_lines() {
    let content = "01-01 10:00:00 | old\n\
                   03-01 09:00:00 | recent one\r\n\
                   no separator here\n\
                   13-45 99:99:99 | not a time\n\
                   02-28 23:59:59 | just before\n\
                   03-01 00:00:00 | at the cutoff\n";
    let cutoff = seconds("2024-03-01 00:00:00");
    let kept = prune_log_lines(content, 2024, cutoff);
    assert_eq!(kept, vec!["03-01 09:00:00 | recent one", "03-01 00:00:00 | at the cutoff"]);
    let later = (cutoff.0, 1);
    let kept = prune_log_lines(content, 2024, later);
    assert_eq!(kept, vec!["03-01 09:00:00 | recent one"]);
    assert!(prune_log_lines("", 2024, cutoff).is_empty());
    assert_eq!(prune_log_lines("12-31 23:59:59 | last", 2024, cutoff), vec!["12-31 23:59:59 | last"]);
}

#[test]
fn prune_caps_number_of_lines() {
    let mut content = String::new();
    for i in 0..10_005 {
        content.push_str(&format!("06-01 12:00:00 | entry {i}\n"));
    }
    let kept = prune_log_lines(&content, 2024, seconds("2024-01-01 00:00:00"));
    assert_eq!(kept.len(), 10_000);
    assert_eq!(kept[0], "06-01 12:00:00 | entry 5");
    assert_eq!(kept[9_999], "06-01 12:00:00 | entry 10004");
}

#[test]
fn prune_removes_old_entries_relative_to_now() {
    let now = chrono::Local::now().naive_local();
    let old = now - chrono::Duration::days(8);
    let recent = now - chrono::Duration::days(1);
    let old_line = format!("{} | old", old.format("%m-%d %H:%M:%S"));
    let recent_line = format!("{} | recent", recent.format("%m-%d %H:%M:%S"));
    let cutoff = now - chrono::Duration::days(7);
    let cutoff = (cutoff.and_utc().timestamp(), cutoff.and_utc().timestamp_subsec_nanos());
    let kept = prune_log_lines(&format!("{old_line}\n{recent_line}\n"), now.year(), cutoff);
    assert!(kept.iter().all(|l| !l.contains("old")));
    if recent.year() == now.year() {
        assert!(kept.iter().any(|l| l.contains("recent")));
    }
}

#[test]
fn notice_lines_are_counted() {
    assert_eq!(notice_line_count(""), 1);
    assert_eq!(notice_line_count("one"), 1);
    assert_eq!(notice_line_count("one\ntwo\n"), 2);
    assert_eq!(notice_line_count("one\n\nthree"), 3);
    assert_eq!(notice_line_count("a\r\nb"), 2);
}
