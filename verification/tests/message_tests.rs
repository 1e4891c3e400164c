use sms_relay::message::{Instant, Message, TIMESTAMP_FORMAT};
use sms_relay::text::decimal_string;

fn sample() -> Message {
    Message {
        from: "+123".to_string(),
        index: 1,
        text: "hi".to_string(),
        timestamp: "2024-01-01 10:00:00 +0000".to_string(),
    }
}

#[test]
fn decimal_string_of_single_digits() {
    assert_eq!(decimal_string(0), "0");
    assert_eq!(decimal_string(7), "7");
    assert_eq!(decimal_string(9), "9");
}

#[test]
fn decimal_string_of_longer_numbers() {
    assert_eq!(decimal_string(10), "10");
    assert_eq!(decimal_string(255), "255");
    assert_eq!(decimal_string(1000), "1000");
    assert_eq!(decimal_string(4294967295), "4294967295");
    assert_eq!(decimal_string(u64::MAX), "18446744073709551615");
}

#[test]
fn to_html_renders_all_fields() {
    assert_eq!(
        sample().to_html(),
        "1) <b>+123</b>\n<i>2024-01-01 10:00:00 +0000</i>\n<pre>hi</pre>"
    );
}

#[test]
fn to_html_keeps_sender_and_body_unchanged() {
    let m = Message {
        from: "<Bank & Co>".to_string(),
        index: 42,
        text: "code: 1 < 2 && \"x\"\nsecond line".to_string(),
        timestamp: "2023-12-31 23:59:59 +0530".to_string(),
    };
    let html = m.to_html();
    assert!(html.contains(m.from.as_str()));
    assert!(html.contains(m.text.as_str()));
    assert!(html.contains(m.timestamp.as_str()));
    assert!(html.starts_with("42) <b>"));
    assert!(html.ends_with("</pre>"));
}

#[test]
fn to_html_of_empty_fields() {
    let m = Message { from: String::new(), index: 0, text: String::new(), timestamp: String::new() };
    assert_eq!(m.to_html(), "0) <b></b>\n<i></i>\n<pre></pre>");
}

#[test]
fn to_text_renders_one_line_per_field() {
    assert_eq!(sample().to_text(), "Timestamp: 2024-01-01 10:00:00 +0000\nFrom: +123\nText: hi");
}

#[test]
fn timestamp_format_is_date_time_offset() {
    assert_eq!(TIMESTAMP_FORMAT, "%Y-%m-%d %H:%M:%S %z");
}

#[test]
fn datetime_reads_utc_timestamp() {
    assert_eq!(sample().datetime().unwrap(), Instant { secs: 1704103200, nanos: 0 });
}

#[test]
fn datetime_applies_the_offset() {
    let mut m = sample();
    m.timestamp = "2024-01-01 10:00:00 +0200".to_string();
    assert_eq!(m.datetime().unwrap(), Instant { secs: 1704096000, nanos: 0 });
    m.timestamp = "2024-01-01 10:00:00 -0130".to_string();
    assert_eq!(m.datetime().unwrap(), Instant { secs: 1704108600, nanos: 0 });
}

#[test]
fn datetime_of_the_epoch_and_before() {
    let mut m = sample();
    m.timestamp = "1970-01-01 00:00:00 +0000".to_string();
    assert_eq!(m.datetime().unwrap(), Instant { secs: 0, nanos: 0 });
    m.timestamp = "1969-12-31 23:59:59 +0000".to_string();
    assert_eq!(m.datetime().unwrap(), Instant { secs: -1, nanos: 0 });
}

#[test]
fn datetime_rejects_malformed_timestamps() {
    let mut m = sample();
    for bad in ["", "yesterday", "2024-01-01 10:00:00", "2024-13-01 10:00:00 +0000", "2024-01-01T10:00:00 +0000"] {
        m.timestamp = bad.to_string();
        assert!(m.datetime().is_err(), "{}", bad);
    }
}

#[test]
fn is_before_orders_by_seconds_then_nanoseconds() {
    let a = Instant { secs: 5, nanos: 900 };
    let b = Instant { secs: 6, nanos: 0 };
    let c = Instant { secs: 6, nanos: 1 };
    assert!(a.is_before(&b));
    assert!(b.is_before(&c));
    assert!(a.is_before(&c));
    assert!(!b.is_before(&a));
    assert!(!c.is_before(&b));
    assert!(!b.is_before(&b));
    assert!(Instant { secs: -1, nanos: 999_999_999 }.is_before(&Instant { secs: 0, nanos: 0 }));
}
