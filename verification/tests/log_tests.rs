use ai_agent_os::log::{JournalStart, LogEntry, LogFilter, LogPriority};

fn rec(pairs: &[(&str, &str)]) -> Vec<(String, String)> {
    pairs.iter().map(|(k, v)| (k.to_string(), v.to_string())).collect()
}

fn field<'a>(e: &'a LogEntry, k: &str) -> Option<&'a str> {
    e.fields.iter().find(|(fk, _)| fk == k).map(|(_, v)| v.as_str())
}

#[test]
fn test_log_priority_conversion() {
    assert_eq!(LogPriority::from(0), LogPriority::Emergency);
    assert_eq!(LogPriority::from(3), LogPriority::Error);
    assert_eq!(LogPriority::from(6), LogPriority::Info);
}

#[test]
fn priority_out_of_range_is_debug() {
    assert_eq!(LogPriority::from(7), LogPriority::Debug);
    assert_eq!(LogPriority::from(-1), LogPriority::Debug);
    assert_eq!(LogPriority::from(42), LogPriority::Debug);
}

#[test]
fn priority_numbers_round_trip() {
    for p in [
        LogPriority::Emergency,
        LogPriority::Alert,
        LogPriority::Critical,
        LogPriority::Error,
        LogPriority::Warning,
        LogPriority::Notice,
        LogPriority::Info,
        LogPriority::Debug,
    ] {
        assert_eq!(LogPriority::from(p.value()), p);
    }
}

#[test]
fn record_with_all_common_fields() {
    let e = LogEntry::from_record(rec(&[
        ("MESSAGE", "disk failing"),
        ("PRIORITY", "2"),
        ("_SYSTEMD_UNIT", "smartd.service"),
        ("_PID", "812"),
        ("_HOSTNAME", "box"),
        ("SYSLOG_IDENTIFIER", "smartd"),
        ("__REALTIME_TIMESTAMP", "1700000000123456"),
    ]));
    assert_eq!(e.message, "disk failing");
    assert_eq!(e.priority, LogPriority::Critical);
    assert_eq!(e.unit.as_deref(), Some("smartd.service"));
    assert_eq!(e.pid, Some(812));
    assert_eq!(e.hostname.as_deref(), Some("box"));
    assert_eq!(e.syslog_identifier.as_deref(), Some("smartd"));
    assert_eq!(e.timestamp, 1700000000123456);
    assert_eq!(e.fields.len(), 7);
    assert_eq!(field(&e, "_PID"), Some("812"));
}

#[test]
fn record_without_fields_uses_defaults() {
    let e = LogEntry::from_record(Vec::new());
    assert_eq!(e.message, "<no message>");
    assert_eq!(e.priority, LogPriority::Info);
    assert_eq!(e.unit, None);
    assert_eq!(e.pid, None);
    assert_eq!(e.timestamp, 0);
    assert!(e.fields.is_empty());
}

#[test]
fn record_with_bad_numbers() {
    let e = LogEntry::from_record(rec(&[
        ("PRIORITY", "high"),
        ("_PID", "-5"),
        ("__REALTIME_TIMESTAMP", "18446744073709551616"),
    ]));
    assert_eq!(e.priority, LogPriority::Info);
    assert_eq!(e.pid, None);
    assert_eq!(e.timestamp, 0);
}

#[test]
fn record_numbers_as_from_str_reads_them() {
    let e = LogEntry::from_record(rec(&[
        ("PRIORITY", "+4"),
        ("_PID", "+77"),
        ("__REALTIME_TIMESTAMP", "18446744073709551615"),
    ]));
    assert_eq!(e.priority, LogPriority::Warning);
    assert_eq!(e.pid, Some(77));
    assert_eq!(e.timestamp, u64::MAX);
    let e = LogEntry::from_record(rec(&[("PRIORITY", "-1"), ("_PID", "4294967296")]));
    assert_eq!(e.priority, LogPriority::Debug);
    assert_eq!(e.pid, None);
}

#[test]
fn repeated_field_keeps_last_value() {
    let e = LogEntry::from_record(rec(&[
        ("MESSAGE", "first"),
        ("X", "1"),
        ("MESSAGE", "second"),
    ]));
    assert_eq!(e.message, "second");
    assert_eq!(e.fields.len(), 2);
    assert_eq!(field(&e, "MESSAGE"), Some("second"));
    assert_eq!(field(&e, "X"), Some("1"));
}

#[test]
fn format_with_and_without_unit() {
    let mut e = LogEntry::from_record(rec(&[
        ("MESSAGE", "hello"),
        ("PRIORITY", "3"),
        ("_SYSTEMD_UNIT", "nginx.service"),
        ("__REALTIME_TIMESTAMP", "42"),
    ]));
    assert_eq!(e.format(), "42 ERROR [nginx.service] hello");
    e.unit = None;
    e.priority = LogPriority::Emergency;
    assert_eq!(e.format(), "42 EMERG  hello");
}

#[test]
fn error_and_warning_levels() {
    let mut e = LogEntry::from_record(rec(&[("PRIORITY", "3")]));
    assert!(e.is_error());
    assert!(e.is_warning());
    e.priority = LogPriority::Warning;
    assert!(!e.is_error());
    assert!(e.is_warning());
    e.priority = LogPriority::Notice;
    assert!(!e.is_error());
    assert!(!e.is_warning());
    e.priority = LogPriority::Emergency;
    assert!(e.is_error());
}

#[test]
fn filter_matches_in_order() {
    let f = LogFilter {
        unit: Some("sshd.service".to_string()),
        priority: Some(LogPriority::Warning),
        since: Some(5),
        until: None,
        identifier: Some("sshd".to_string()),
    };
    let m = f.journal_matches();
    assert_eq!(
        m,
        vec![
            ("_SYSTEMD_UNIT".to_string(), "sshd.service".to_string()),
            ("SYSLOG_IDENTIFIER".to_string(), "sshd".to_string()),
            ("PRIORITY".to_string(), "4".to_string()),
        ]
    );
    assert_eq!(
        f.journal_matches_at_or_above(),
        vec![
            ("_SYSTEMD_UNIT".to_string(), "sshd.service".to_string()),
            ("SYSLOG_IDENTIFIER".to_string(), "sshd".to_string()),
            ("PRIORITY".to_string(), "0".to_string()),
            ("PRIORITY".to_string(), "1".to_string()),
            ("PRIORITY".to_string(), "2".to_string()),
            ("PRIORITY".to_string(), "3".to_string()),
            ("PRIORITY".to_string(), "4".to_string()),
        ]
    );
    assert!(LogFilter::default().journal_matches_at_or_above().is_empty());
    assert!(LogFilter::default().journal_matches().is_empty());
}

#[test]
fn unit_filter_and_critical_filter() {
    let f = LogFilter::for_unit("docker.service");
    assert_eq!(f.unit.as_deref(), Some("docker.service"));
    assert!(f.priority.is_none());
    let c = LogFilter::critical_since(10_000, 5);
    assert_eq!(c.priority, Some(LogPriority::Critical));
    assert_eq!(c.since, Some(9_700));
    assert_eq!(c.journal_matches(), vec![("PRIORITY".to_string(), "2".to_string())]);
    assert_eq!(
        c.journal_matches_at_or_above(),
        vec![
            ("PRIORITY".to_string(), "0".to_string()),
            ("PRIORITY".to_string(), "1".to_string()),
            ("PRIORITY".to_string(), "2".to_string()),
        ]
    );
    assert_eq!(c.start_position(), JournalStart::Realtime { usec: 9_700_000_000 });
}

fn entry(priority: &str, ts_usec: &str) -> LogEntry {
    LogEntry::from_record(rec(&[("PRIORITY", priority), ("__REALTIME_TIMESTAMP", ts_usec)]))
}

#[test]
fn critical_filter_admits_recent_severe_entries() {
    let c = LogFilter::critical_since(10_000, 5);
    // Emergency, Alert and Critical inside the window.
    assert!(c.admits(&entry("0", "9700000000")));
    assert!(c.admits(&entry("1", "9800000000")));
    assert!(c.admits(&entry("2", "9999999999")));
    // Error is not severe enough.
    assert!(!c.admits(&entry("3", "9800000000")));
    // One microsecond before the window starts.
    assert!(!c.admits(&entry("2", "9699999999")));
}

#[test]
fn filter_admits_by_unit_identifier_and_until() {
    let f = LogFilter {
        unit: Some("sshd.service".to_string()),
        priority: None,
        since: None,
        until: Some(10),
        identifier: Some("sshd".to_string()),
    };
    let ok = LogEntry::from_record(rec(&[
        ("_SYSTEMD_UNIT", "sshd.service"),
        ("SYSLOG_IDENTIFIER", "sshd"),
        ("__REALTIME_TIMESTAMP", "10999999"),
    ]));
    assert!(f.admits(&ok));
    let late = LogEntry::from_record(rec(&[
        ("_SYSTEMD_UNIT", "sshd.service"),
        ("SYSLOG_IDENTIFIER", "sshd"),
        ("__REALTIME_TIMESTAMP", "11000000"),
    ]));
    assert!(!f.admits(&late));
    let other_unit = LogEntry::from_record(rec(&[
        ("_SYSTEMD_UNIT", "cron.service"),
        ("SYSLOG_IDENTIFIER", "sshd"),
    ]));
    assert!(!f.admits(&other_unit));
    let no_ident = LogEntry::from_record(rec(&[("_SYSTEMD_UNIT", "sshd.service")]));
    assert!(!f.admits(&no_ident));
    assert!(LogFilter::default().admits(&no_ident));
}

#[test]
fn start_position_of_filters() {
    assert_eq!(LogFilter::default().start_position(), JournalStart::Head);
    let f = LogFilter { since: Some(7), ..LogFilter::default() };
    assert_eq!(f.start_position(), JournalStart::Realtime { usec: 7_000_000 });
    let far = LogFilter { since: Some(u64::MAX), ..LogFilter::default() };
    assert_eq!(far.start_position(), JournalStart::Realtime { usec: u64::MAX });
}

#[test]
fn filter_priority_reads_back() {
    let f = LogFilter { priority: Some(LogPriority::Alert), ..LogFilter::default() };
    let e = LogEntry::from_record(f.journal_matches());
    assert_eq!(e.priority, LogPriority::Alert);
}

#[test]
fn entries_are_put_oldest_first() {
    let newest_first = vec![
        rec(&[("MESSAGE", "c"), ("__REALTIME_TIMESTAMP", "3")]),
        rec(&[("MESSAGE", "b"), ("__REALTIME_TIMESTAMP", "2")]),
        rec(&[("MESSAGE", "a"), ("__REALTIME_TIMESTAMP", "1")]),
    ];
    let entries = LogEntry::entries_oldest_first(newest_first);
    let msgs: Vec<&str> = entries.iter().map(|e| e.message.as_str()).collect();
    assert_eq!(msgs, vec!["a", "b", "c"]);
    assert_eq!(entries[0].timestamp, 1);
    assert!(LogEntry::entries_oldest_first(Vec::new()).is_empty());
}
