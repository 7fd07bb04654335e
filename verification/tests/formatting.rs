use radium_cli::chat::{format_relative_time as since, format_session_history, SessionMessage};
use radium_cli::checkpoint::{format_duration, format_number};
use radium_cli::models::{
    file_size_unit, format_bytes, format_duration as compact_duration,
    format_relative_time as ago, SizeUnit,
};

#[test]
fn checkpoint_duration_units() {
    assert_eq!(format_duration(0), "0s");
    assert_eq!(format_duration(59), "59s");
    assert_eq!(format_duration(60), "1m 0s");
    assert_eq!(format_duration(3599), "59m 59s");
    assert_eq!(format_duration(3661), "1h 1m 1s");
    assert_eq!(format_duration(90061), "25h 1m 1s");
}

#[test]
fn number_thousands_separators() {
    assert_eq!(format_number(0), "0");
    assert_eq!(format_number(999), "999");
    assert_eq!(format_number(1000), "1,000");
    assert_eq!(format_number(1234567), "1,234,567");
    assert_eq!(format_number(100000), "100,000");
    assert_eq!(format_number(u64::MAX), "18,446,744,073,709,551,615");
}

#[test]
fn number_without_commas_is_decimal() {
    for n in [7u64, 12345, 9876543210] {
        assert_eq!(format_number(n).replace(',', ""), n.to_string());
    }
}

#[test]
fn compact_duration_drops_zero_parts() {
    assert_eq!(compact_duration(59), "59s");
    assert_eq!(compact_duration(60), "1m");
    assert_eq!(compact_duration(61), "1m 1s");
    assert_eq!(compact_duration(3600), "1h");
    assert_eq!(compact_duration(3660), "1h 1m");
    assert_eq!(compact_duration(7199), "1h 59m");
}

#[test]
fn relative_time_in_seconds_minutes_hours() {
    assert_eq!(ago(5), "5s ago");
    assert_eq!(ago(125), "2m ago");
    assert_eq!(ago(7200), "2h ago");
}

#[test]
fn file_size_units() {
    assert_eq!(file_size_unit(0), SizeUnit::Bytes);
    assert_eq!(file_size_unit(1023), SizeUnit::Bytes);
    assert_eq!(file_size_unit(1024), SizeUnit::Kilobytes);
    assert_eq!(file_size_unit(1024 * 1024 - 1), SizeUnit::Kilobytes);
    assert_eq!(file_size_unit(1024 * 1024), SizeUnit::Megabytes);
    assert_eq!(file_size_unit(1024 * 1024 * 1024), SizeUnit::Gigabytes);
    assert_eq!(format_bytes(512), "512 B");
}

#[test]
fn chat_relative_time_labels() {
    assert_eq!(since(-5), "just now");
    assert_eq!(since(59), "just now");
    assert_eq!(since(60), "1m ago");
    assert_eq!(since(3599), "59m ago");
    assert_eq!(since(3600), "1h ago");
    assert_eq!(since(86399), "23h ago");
    assert_eq!(since(86400), "1d ago");
    assert_eq!(since(172800), "2d ago");
}

#[test]
fn session_history_text() {
    assert_eq!(format_session_history(&vec![]), "");
    let messages = vec![
        SessionMessage { role: "user".to_string(), content: "hi".to_string() },
        SessionMessage { role: "assistant".to_string(), content: "hello".to_string() },
    ];
    assert_eq!(
        format_session_history(&messages),
        "Conversation History:\nuser: hi\nassistant: hello\n"
    );
}
