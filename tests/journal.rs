use systemd_monitoring_mcp::journal::{
    build_grep_matcher, matches_grep, sanitize_log_message, JournalLogEntry, JournalRecord,
    JournalScan, SeekTarget, Verdict,
};
use systemd_monitoring_mcp::summary::build_log_summary;
use systemd_monitoring_mcp::utc::{format_systemd_timestamp_usec, parse_utc};
use systemd_monitoring_mcp::validate::{LogOrder, LogQuery};

fn instant(text: &str) -> systemd_monitoring_mcp::utc::UtcInstant {
    parse_utc(&Some(text.to_string())).expect("valid").expect("present")
}

fn query(order: LogOrder, limit: usize, grep: Option<&str>, priority: Option<&str>) -> LogQuery {
    LogQuery {
        priority: priority.map(|p| p.to_string()),
        unit: None,
        exclude_units: vec!["noisy.service".to_string()],
        grep: grep.map(|g| g.to_string()),
        order,
        start_utc: Some(instant("2025-01-01T00:00:00Z")),
        end_utc: Some(instant("2025-01-01T01:00:00Z")),
        limit,
    }
}

fn record(unit: &str, priority: &str, message: &str) -> JournalRecord {
    JournalRecord {
        unit: Some(unit.to_string()),
        priority: Some(priority.to_string()),
        hostname: Some("host-a".to_string()),
        pid: Some("1234".to_string()),
        message: Some(message.to_string()),
        cursor: Some("s=abc".to_string()),
    }
}

const START_US: u64 = 1_735_689_600_000_000;

#[test]
fn journal_log_entry_keeps_expected_shape() {
    let sample = JournalLogEntry {
        timestamp_utc: "2025-01-01T00:00:00.000Z".to_string(),
        unit: Some("ssh.service".to_string()),
        priority: Some("6".to_string()),
        hostname: Some("host-a".to_string()),
        pid: Some(1234),
        message: Some("Started OpenSSH server".to_string()),
        cursor: Some("s=abc;i=12".to_string()),
    };
    assert_eq!(sample.unit.as_deref(), Some("ssh.service"));
    assert_eq!(sample.priority.as_deref(), Some("6"));
}

#[test]
fn grep_regex_and_substring_select_the_same_messages() {
    let regex = build_grep_matcher(Some("/^ERR/")).ok().flatten();
    let plain = build_grep_matcher(Some("disk")).ok().flatten();
    assert!(regex.is_some() && plain.is_some());
    let messages = ["ERR disk full", "info ok"];
    let by_regex: Vec<&str> = messages.iter().copied().filter(|m| matches_grep(&regex, m)).collect();
    let by_text: Vec<&str> = messages.iter().copied().filter(|m| matches_grep(&plain, m)).collect();
    assert_eq!(by_regex, vec!["ERR disk full"]);
    assert_eq!(by_text, vec!["ERR disk full"]);
}

#[test]
fn invalid_regex_is_rejected_and_blank_grep_is_absent() {
    match build_grep_matcher(Some("/([unclosed/")) {
        Err(e) => assert_eq!(e.code(), "invalid_grep"),
        Ok(_) => panic!("expected invalid grep"),
    }
    assert!(matches!(build_grep_matcher(Some("   ")), Ok(None)));
    assert!(matches!(build_grep_matcher(None), Ok(None)));
    let slash = build_grep_matcher(Some("/")).ok().flatten();
    assert!(matches_grep(&slash, "a/b"));
    assert!(!matches_grep(&slash, "ab"));
}

#[test]
fn messages_are_sanitized() {
    assert_eq!(sanitize_log_message(Some("  a\u{7}b\tc\n ".to_string())).as_deref(), Some("a b\tc"));
    assert_eq!(sanitize_log_message(Some("\u{1}\u{2}".to_string())), None);
    assert_eq!(sanitize_log_message(Some("   ".to_string())), None);
    assert_eq!(sanitize_log_message(None), None);
}

#[test]
fn systemd_timestamps_render_in_milliseconds() {
    assert_eq!(format_systemd_timestamp_usec(0), None);
    assert_eq!(format_systemd_timestamp_usec(START_US + 1_500).as_deref(), Some("2025-01-01T00:00:00.001Z"));
    assert_eq!(format_systemd_timestamp_usec(u64::MAX), None);
}

#[test]
fn descending_scan_filters_and_stops_before_the_window() {
    let (mut scan, seek) = JournalScan::new(query(LogOrder::Desc, 10, Some("disk"), Some("4"))).ok().expect("valid scan");
    assert_eq!(seek, SeekTarget::Realtime(START_US + 3_600_000_000));
    assert_eq!(scan.check_timestamp(START_US + 3_700_000_000), Verdict::Skip);
    assert_eq!(scan.check_timestamp(START_US + 3_000_000_000), Verdict::Read);
    assert!(scan.offer(record("a.service", "3", "ERR disk full")));
    assert_eq!(scan.check_timestamp(START_US + 2_000_000_000), Verdict::Read);
    assert!(!scan.offer(record("a.service", "6", "disk ok")));
    assert_eq!(scan.check_timestamp(START_US + 1_000_000_000), Verdict::Read);
    assert!(!scan.offer(record("NOISY.service", "2", "disk failure")));
    assert_eq!(scan.check_timestamp(START_US + 500), Verdict::Read);
    assert!(!scan.offer(record("b.service", "2", "all good")));
    assert_eq!(scan.check_timestamp(START_US - 1), Verdict::Stop);
    assert!(!scan.wants_more());
    let result = scan.finish();
    assert_eq!(result.total_scanned, Some(6));
    assert_eq!(result.entries.len(), 1);
    let entry = &result.entries[0];
    assert_eq!(entry.timestamp_utc, "2025-01-01T00:50:00.000Z");
    assert_eq!(entry.priority.as_deref(), Some("3"));
    assert_eq!(entry.pid, Some(1234));
    assert_eq!(entry.message.as_deref(), Some("ERR disk full"));
}

#[test]
fn ascending_scan_respects_the_limit() {
    let (mut scan, seek) = JournalScan::new(query(LogOrder::Asc, 2, None, None)).ok().expect("valid scan");
    assert_eq!(seek, SeekTarget::Realtime(START_US));
    assert_eq!(scan.check_timestamp(START_US - 5), Verdict::Skip);
    for k in 0..2u64 {
        assert_eq!(scan.check_timestamp(START_US + k), Verdict::Read);
        let mut r = record("a.service", "+6", "hello");
        r.message = None;
        assert!(scan.offer(r));
    }
    assert!(!scan.wants_more());
    assert_eq!(scan.check_timestamp(START_US + 10), Verdict::Stop);
    let result = scan.finish();
    assert_eq!(result.entries.len(), 2);
    assert_eq!(result.total_scanned, Some(3));
    assert!(result.total_scanned.unwrap() >= result.entries.len());
    assert_eq!(result.entries[0].priority.as_deref(), Some("6"));
    assert_eq!(result.entries[0].message, None);
}

#[test]
fn scan_without_window_is_rejected() {
    let mut q = query(LogOrder::Desc, 10, None, None);
    q.start_utc = None;
    assert!(JournalScan::new(q).is_err());
}

#[test]
fn log_summary_counts_and_ranks() {
    let entry = |unit: Option<&str>, priority: Option<&str>, message: &str| JournalLogEntry {
        timestamp_utc: "2025-01-01T00:00:00.000Z".to_string(),
        unit: unit.map(|u| u.to_string()),
        priority: priority.map(|p| p.to_string()),
        hostname: None,
        pid: None,
        message: Some(message.to_string()),
        cursor: None,
    };
    let entries = vec![
        entry(Some("a.service"), Some("3"), "boom"),
        entry(Some("a.service"), Some("6"), "ok"),
        entry(Some("b.service"), Some("2"), "boom"),
        entry(Some("a.service"), Some("1"), "boom"),
        entry(None, None, "ok"),
    ];
    let summary = build_log_summary(&entries);
    assert_eq!(summary.counts_by_unit, vec![("a.service".to_string(), 3), ("b.service".to_string(), 1)]);
    assert_eq!(
        summary.counts_by_priority,
        vec![("1".to_string(), 1), ("2".to_string(), 1), ("3".to_string(), 1), ("6".to_string(), 1), ("unknown".to_string(), 1)]
    );
    assert_eq!(summary.top_messages, vec![("boom".to_string(), 3), ("ok".to_string(), 2)]);
    assert_eq!(summary.error_hotspots, vec![("a.service".to_string(), 2), ("b.service".to_string(), 1)]);
}
