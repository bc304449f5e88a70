use log_viewer::builtin::journal_json::JournalEntry;
use log_viewer::text::{i32_to_dec_string, is_blank_str, parse_i32_str, parse_i64_str, trim_str};
use log_viewer::{CellStyle, FileParsers};

#[test]
fn journal_full_record() {
    let line = "{\"__REALTIME_TIMESTAMP\":\"1609459200999999\",\"PRIORITY\":\"3\",\
                \"_PID\":\"007\",\"SYSLOG_IDENTIFIER\":\"sshd\",\
                \"_SYSTEMD_UNIT\":\"ssh.service\",\"MESSAGE\":\"login failed\"}";
    let row = FileParsers::JournalJson.parse_line(line).unwrap();
    assert_eq!(row.len(), 6);
    assert_eq!(row.cells()[0].text, "2021-01-01 00:00:00");
    assert_eq!(row.cells()[0].style, None);
    assert_eq!(row.cells()[1].text, "ERR");
    assert_eq!(row.cells()[1].style, Some(CellStyle::Red));
    assert_eq!(row.cells()[2].text, "ssh.service");
    assert_eq!(row.cells()[2].style, Some(CellStyle::DarkGreen));
    assert_eq!(row.cells()[3].text, "sshd");
    assert_eq!(row.cells()[3].style, Some(CellStyle::LightGreen));
    assert_eq!(row.cells()[4].text, "7");
    assert_eq!(row.cells()[4].style, Some(CellStyle::LightBlue));
    assert_eq!(row.cells()[5].text, "login failed");
    assert_eq!(row.cells()[5].style, Some(CellStyle::WhiteWeak));
}

#[test]
fn journal_optional_fields_absent() {
    let line = "{\"__REALTIME_TIMESTAMP\":\"0\",\"MESSAGE\":\"m\"}";
    let row = FileParsers::JournalJson.parse_line(line).unwrap();
    assert_eq!(row.len(), 6);
    assert_eq!(row.cells()[0].text, "1970-01-01 00:00:00");
    assert_eq!(row.cells()[1].text, "UNKNOWN");
    assert_eq!(row.cells()[1].style, Some(CellStyle::Gray));
    assert_eq!(row.cells()[2].text, "");
    assert_eq!(row.cells()[3].text, "");
    assert_eq!(row.cells()[4].text, "");
    assert_eq!(row.cells()[5].text, "m");
}

#[test]
fn journal_severity_labels() {
    let expected = [
        ("0", "EMERG", CellStyle::Red),
        ("1", "ALERT", CellStyle::Red),
        ("2", "CRIT", CellStyle::Red),
        ("4", "WARNING", CellStyle::Yellow),
        ("5", "NOTICE", CellStyle::Green),
        ("6", "INFO", CellStyle::Green),
        ("7", "DEBUG", CellStyle::LightBlue),
        ("9", "UNKNOWN", CellStyle::Gray),
    ];
    for (p, label, style) in expected {
        let line = format!(
            "{{\"__REALTIME_TIMESTAMP\":\"0\",\"PRIORITY\":\"{}\",\"MESSAGE\":\"m\"}}",
            p
        );
        let row = FileParsers::JournalJson.parse_line(&line).unwrap();
        assert_eq!(row.cells()[1].text, label);
        assert_eq!(row.cells()[1].style, Some(style));
    }
}

#[test]
fn journal_missing_timestamp_rejected() {
    assert!(FileParsers::JournalJson.parse_line("{\"MESSAGE\":\"hi\"}").is_none());
}

#[test]
fn journal_missing_message_rejected() {
    assert!(FileParsers::JournalJson
        .parse_line("{\"__REALTIME_TIMESTAMP\":\"0\"}")
        .is_none());
}

#[test]
fn journal_invalid_json_rejected() {
    assert!(FileParsers::JournalJson.parse_line("{not json").is_none());
    assert!(FileParsers::JournalJson.parse_line("[1,2,3]").is_none());
}

#[test]
fn journal_non_integer_fields_rejected() {
    let bad_ts = "{\"__REALTIME_TIMESTAMP\":\"abc\",\"MESSAGE\":\"m\"}";
    assert!(FileParsers::JournalJson.parse_line(bad_ts).is_none());
    let bad_pid = "{\"__REALTIME_TIMESTAMP\":\"0\",\"_PID\":\"x1\",\"MESSAGE\":\"m\"}";
    assert!(FileParsers::JournalJson.parse_line(bad_pid).is_none());
    let bad_prio = "{\"__REALTIME_TIMESTAMP\":\"0\",\"PRIORITY\":\"high\",\"MESSAGE\":\"m\"}";
    assert!(FileParsers::JournalJson.parse_line(bad_prio).is_none());
}

#[test]
fn journal_non_string_field_rejected() {
    let pid_number = "{\"__REALTIME_TIMESTAMP\":\"0\",\"_PID\":5,\"MESSAGE\":\"m\"}";
    assert!(FileParsers::JournalJson.parse_line(pid_number).is_none());
    let msg_number = "{\"__REALTIME_TIMESTAMP\":\"0\",\"MESSAGE\":3}";
    assert!(FileParsers::JournalJson.parse_line(msg_number).is_none());
}

#[test]
fn journal_timestamp_truncates_microseconds() {
    let line = "{\"__REALTIME_TIMESTAMP\":\"-1\",\"MESSAGE\":\"m\"}";
    let row = FileParsers::JournalJson.parse_line(line).unwrap();
    assert_eq!(row.cells()[0].text, "1970-01-01 00:00:00");
}

#[test]
fn journal_entry_parses_integers() {
    let entry = JournalEntry {
        timestamp: "1234567".to_string(),
        unit: None,
        pid: Some("007".to_string()),
        identifier: None,
        priority: "".to_string(),
        message: "m".to_string(),
    };
    assert_eq!(entry.timestamp(), Some(1234567));
    assert_eq!(entry.pid(), Some(7));
    assert_eq!(entry.priority(), None);
}

#[test]
fn parse_i64_grammar_and_range() {
    assert_eq!(parse_i64_str("0"), Some(0));
    assert_eq!(parse_i64_str("-42"), Some(-42));
    assert_eq!(parse_i64_str("+7"), Some(7));
    assert_eq!(parse_i64_str("9223372036854775807"), Some(i64::MAX));
    assert_eq!(parse_i64_str("-9223372036854775808"), Some(i64::MIN));
    assert_eq!(parse_i64_str("9223372036854775808"), None);
    assert_eq!(parse_i64_str("99999999999999999999999"), None);
    assert_eq!(parse_i64_str(""), None);
    assert_eq!(parse_i64_str("+"), None);
    assert_eq!(parse_i64_str("1e3"), None);
    assert_eq!(parse_i64_str(" 1"), None);
}

#[test]
fn parse_i32_range() {
    assert_eq!(parse_i32_str("2147483647"), Some(i32::MAX));
    assert_eq!(parse_i32_str("-2147483648"), Some(i32::MIN));
    assert_eq!(parse_i32_str("2147483648"), None);
}

#[test]
fn decimal_rendering() {
    assert_eq!(i32_to_dec_string(0), "0");
    assert_eq!(i32_to_dec_string(7), "7");
    assert_eq!(i32_to_dec_string(-35), "-35");
    assert_eq!(i32_to_dec_string(i32::MIN), "-2147483648");
    assert_eq!(i32_to_dec_string(i32::MAX), "2147483647");
}

#[test]
fn trim_and_blank() {
    assert_eq!(trim_str("  a b \t"), "a b");
    assert_eq!(trim_str(""), "");
    assert_eq!(trim_str(" \u{2028} "), "");
    assert!(is_blank_str(""));
    assert!(is_blank_str(" \t\u{a0}"));
    assert!(!is_blank_str(" x "));
}
