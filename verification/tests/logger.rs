use loghound::logger::{format_line, render_line};
use loghound::model::{DebugMessage, LocalTime};

fn local(y: i32, mo: u32, d: u32, h: u32, mi: u32, s: u32, nanos: u32) -> LocalTime {
    let secs = chrono::NaiveDate::from_ymd_opt(y, mo, d)
        .unwrap()
        .and_hms_opt(h, mi, s)
        .unwrap()
        .and_utc()
        .timestamp();
    LocalTime::from_timestamp(secs, nanos).unwrap()
}

fn sample() -> DebugMessage {
    DebugMessage {
        pid: 4321,
        process_name: Some("myapp.exe".to_string()),
        text: "hello world".to_string(),
        timestamp: local(2026, 6, 4, 12, 34, 56, 0),
    }
}

#[test]
fn formats_all_placeholders() {
    let line = format_line("{time} [{pid} {process}] {message}", &sample());
    assert_eq!(line, "2026-06-04 12:34:56.000 [4321 myapp.exe] hello world");
}

#[test]
fn missing_process_uses_placeholder() {
    let mut msg = sample();
    msg.process_name = None;
    let line = format_line("[{process}] {message}", &msg);
    assert_eq!(line, "[-] hello world");
}

#[test]
fn custom_format_order() {
    let line = format_line("{message} <{pid}>", &sample());
    assert_eq!(line, "hello world <4321>");
}

#[test]
fn milliseconds_are_written() {
    let mut msg = sample();
    msg.timestamp = local(2026, 6, 4, 10, 23, 45, 123_456_789);
    assert_eq!(format_line("{time}", &msg), "2026-06-04 10:23:45.123");
}

#[test]
fn repeated_placeholders_are_all_filled() {
    let line = render_line("{pid}-{pid} {nope} {process}", "t", 0, None, "m");
    assert_eq!(line, "0-0 {nope} -");
}

#[test]
fn braces_in_the_message_stay_as_they_are() {
    let line = render_line("{message}|{pid}", "t", 7, Some("p"), "{pid}{time}");
    assert_eq!(line, "{pid}{time}|7");
}

#[test]
fn format_without_placeholders_is_kept() {
    let line = render_line("plain text", "t", 1, Some("p"), "m");
    assert_eq!(line, "plain text");
}

#[test]
fn time_range_is_checked() {
    assert!(LocalTime::from_timestamp(0, 0).is_some());
    assert!(LocalTime::from_timestamp(0, 1_000_000_000).is_none());
    assert!(LocalTime::from_timestamp(i64::MAX, 0).is_none());
    assert!(LocalTime::from_timestamp(loghound::model::MAX_TIMESTAMP, 999_999_999).is_some());
    assert!(LocalTime::from_timestamp(loghound::model::MIN_TIMESTAMP, 0).is_some());
    assert!(LocalTime::from_timestamp(loghound::model::MIN_TIMESTAMP - 1, 0).is_none());
    let t = LocalTime::from_timestamp(0, 5).unwrap();
    assert_eq!(t.secs(), 0);
    assert_eq!(t.nanos(), 5);
    assert_eq!(t.text(), "1970-01-01 00:00:00.000");
}

#[test]
fn extreme_times_are_written() {
    let max = LocalTime::from_timestamp(loghound::model::MAX_TIMESTAMP, 0).unwrap();
    assert_eq!(max.text(), "+262142-12-31 23:59:59.000");
    let min = LocalTime::from_timestamp(loghound::model::MIN_TIMESTAMP, 0).unwrap();
    assert_eq!(min.text(), "-262143-01-01 00:00:00.000");
}

#[test]
fn new_message_keeps_its_fields() {
    let t = local(2026, 6, 4, 12, 34, 56, 0);
    let m = DebugMessage::new(3, None, "x".to_string(), t);
    assert_eq!(m.pid, 3);
    assert_eq!(m.process_name, None);
    assert_eq!(m.text, "x");
    assert_eq!(m.timestamp.secs(), t.secs());
    assert_eq!(format_line("{time}|{process}", &m), "2026-06-04 12:34:56.000|-");
}
