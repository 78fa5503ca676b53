use janus::error::{ErrorHandler, ErrorType, JanusError};
use janus::logging::{stream_line, trim_text, LogEntry, LogHandler, LogType};
use janus::process::ProcessStatus;
use janus::text::{decimal_text, padded};

#[test]
fn log_line_format() {
    let h = LogHandler::new("info");
    assert_eq!(h.log_level(), "info");
    let entry = LogEntry {
        timestamp: "2024-01-02 03:04:05.678".to_string(),
        process_name: "web".to_string(),
        log_type: LogType::Stdout,
        content: "hello".to_string(),
    };
    assert_eq!(h.format_log_entry(&entry), "[2024-01-02 03:04:05.678] [web] hello\n");
    let system = LogEntry { log_type: LogType::System, ..entry };
    assert_eq!(h.format_log_entry(&system), "[2024-01-02 03:04:05.678] [SYSTEM] hello\n");
}

#[test]
fn log_line_has_a_timestamp() {
    let h = LogHandler::new("info");
    let line = h.line("api", LogType::Stderr, "boom");
    assert!(line.starts_with('['));
    assert!(line.ends_with("] [api] boom\n"));
    assert_eq!(line.len(), "[2024-01-02 03:04:05.678] [api] boom\n".len());
}

#[test]
fn error_entries() {
    let eh = ErrorHandler::new(LogHandler::new("info"));
    let entry = eh.handle_error("svc", ErrorType::RestartLimited, "Restart limit reached: 3");
    assert_eq!(entry.content, "[RESTART_LIMITED] svc: Restart limit reached: 3");
    assert_eq!(entry.log_type, LogType::System);
    assert_eq!(eh.classify_error(0), ErrorType::AbnormalExit);
    assert_eq!(eh.classify_error(2), ErrorType::StartFailed);
}

#[test]
fn error_messages() {
    assert_eq!(JanusError::Config("bad".to_string()).message(), "Configuration error: bad");
    assert_eq!(JanusError::Io("x".to_string()).message(), "IO error: x");
    assert_eq!(JanusError::Signal("s".to_string()).message(), "Signal handling error: s");
    assert_eq!(JanusError::Command("Unknown command".to_string()).message(), "Command error: Unknown command");
}

#[test]
fn pump_lines() {
    assert_eq!(stream_line("  hello world \n"), Some("hello world".to_string()));
    assert_eq!(stream_line("\n"), None);
    assert_eq!(stream_line(""), None);
    assert_eq!(stream_line("   \n"), Some(String::new()));
    assert_eq!(stream_line("last"), Some("last".to_string()));
    assert_eq!(trim_text("\t a b \r"), "a b");
}

#[test]
fn text_helpers() {
    assert_eq!(decimal_text(0), "0");
    assert_eq!(decimal_text(1234567890), "1234567890");
    assert_eq!(decimal_text(u64::MAX), u64::MAX.to_string());
    assert_eq!(padded("ab", 5), "ab   ");
    assert_eq!(padded("abcdef", 3), "abcdef");
    assert_eq!(ProcessStatus::Failed.as_text(), "FAILED");
    assert_eq!(ProcessStatus::Running.as_text(), "RUNNING");
}
