use loglens::matcher::{line_matches, AndFilter, Filter, KeywordFilter, LogLevelFilter, OrFilter};
use loglens::model::{LogLevel, LogRecord};

fn record(level: LogLevel, message: &str) -> LogRecord {
    LogRecord {
        unix_timestamp_seconds: None,
        level,
        message: message.to_string(),
    }
}

#[test]
fn matches_exact_case() {
    assert!(line_matches("INFO retry request", "retry", false));
}

#[test]
fn does_not_match_different_case_without_flag() {
    assert!(!line_matches("INFO retry request", "RETRY", false));
}

#[test]
fn matches_different_case_with_ignore_case() {
    assert!(line_matches("INFO retry requet", "RETRY", true));
}

#[test]
fn does_not_match_missing_keywor() {
    assert!(!line_matches("WARN timeout", "missing", true))
}

#[test]
fn match_info_log_level() {
    assert!(line_matches("INFO retry request", "INFO", false));
}

#[test]
fn match_keyword_filter_false_ignore() {
    let keyword_filter = KeywordFilter::new("INFO".to_string(), false);
    assert!(keyword_filter.matches(
        "INFO retry request",
        &LogRecord {
            unix_timestamp_seconds: None,
            level: LogLevel::Info,
            message: "retry request".to_string()
        }
    ));
}

#[test]
fn match_keyword_filter_true_ignore() {
    let keyword_filter = KeywordFilter::new("info".to_string(), true);
    assert!(keyword_filter.matches(
        "INFO retry request",
        &LogRecord {
            unix_timestamp_seconds: None,
            level: LogLevel::Info,
            message: "retry request".to_string(),
        }
    ));
}

#[test]
fn match_log_level_info() {
    let log_level_filter = LogLevelFilter::new(LogLevel::Info);
    assert!(log_level_filter.matches(
        "INFO retry request",
        &LogRecord {
            unix_timestamp_seconds: None,
            level: LogLevel::Info,
            message: "retry request".to_string(),
        }
    ));
}

#[test]
fn match_log_level_warn() {
    let log_level_filter = LogLevelFilter::new(LogLevel::Warn);
    assert!(!log_level_filter.matches(
        "INFO retry request",
        &LogRecord {
            unix_timestamp_seconds: None,
            level: LogLevel::Info,
            message: "retry request".to_string(),
        }
    ));
}

#[test]
fn and_filter_true_true() {
    let log_level_filter = LogLevelFilter::new(LogLevel::Info);
    let keyword_filter = KeywordFilter::new("retry".to_string(), true);
    let and_filter = AndFilter::new(keyword_filter, log_level_filter);
    assert!(and_filter.matches("INFO retry request", &record(LogLevel::Info, "retry request")));
}

#[test]
fn and_filter_true_false() {
    let log_level_filter = LogLevelFilter::new(LogLevel::Info);
    let keyword_filter = KeywordFilter::new("retry".to_string(), true);
    let and_filter = AndFilter::new(keyword_filter, log_level_filter);
    assert!(!and_filter.matches("WARN retry request", &record(LogLevel::Warn, "retry request")));
}

#[test]
fn and_filter_false_true() {
    let log_level_filter = LogLevelFilter::new(LogLevel::Info);
    let keyword_filter = KeywordFilter::new("retry".to_string(), true);
    let and_filter = AndFilter::new(keyword_filter, log_level_filter);
    assert!(!and_filter.matches("INFO timeout", &record(LogLevel::Info, "timeout")));
}

#[test]
fn and_filter_false_false() {
    let log_level_filter = LogLevelFilter::new(LogLevel::Info);
    let keyword_filter = KeywordFilter::new("retry".to_string(), true);
    let and_filter = AndFilter::new(keyword_filter, log_level_filter);
    assert!(!and_filter.matches("WARN timeout", &record(LogLevel::Warn, "timeout")));
}

#[test]
fn or_filter_true_true() {
    let log_level_filter = LogLevelFilter::new(LogLevel::Info);
    let keyword_filter = KeywordFilter::new("retry".to_string(), true);
    let or_filter = OrFilter::new(keyword_filter, log_level_filter);
    assert!(or_filter.matches("INFO retry request", &record(LogLevel::Info, "retry request")));
}

#[test]
fn or_filter_true_false() {
    let log_level_filter = LogLevelFilter::new(LogLevel::Info);
    let keyword_filter = KeywordFilter::new("retry".to_string(), true);
    let or_filter = OrFilter::new(keyword_filter, log_level_filter);
    assert!(or_filter.matches("WARN retry request", &record(LogLevel::Warn, "retry request")));
}

#[test]
fn or_filter_false_true() {
    let log_level_filter = LogLevelFilter::new(LogLevel::Info);
    let keyword_filter = KeywordFilter::new("retry".to_string(), true);
    let or_filter = OrFilter::new(keyword_filter, log_level_filter);
    assert!(or_filter.matches("INFO timeout", &record(LogLevel::Info, "timeout")));
}

#[test]
fn or_filter_false_false() {
    let log_level_filter = LogLevelFilter::new(LogLevel::Info);
    let keyword_filter = KeywordFilter::new("retry".to_string(), true);
    let or_filter = OrFilter::new(keyword_filter, log_level_filter);
    assert!(!or_filter.matches("WARN timeout", &record(LogLevel::Warn, "timeout")));
}

#[test]
fn ignore_case_matches_unicode_keyword() {
    assert!(line_matches("ERROR 登录 ÉCHEC", "échec", true));
    assert!(!line_matches("ERROR 登录 ÉCHEC", "échec", false));
    assert!(line_matches("INFO 用户登录成功", "登录", false));
}

#[test]
fn empty_keyword_matches_every_line() {
    assert!(line_matches("WARN timeout", "", false));
    assert!(line_matches("", "", true));
}

#[test]
fn keyword_longer_than_line_does_not_match() {
    assert!(!line_matches("INFO", "INFO retry", false));
}

#[test]
fn keyword_filter_ignores_the_record() {
    let keyword_filter = KeywordFilter::new("timeout".to_string(), false);
    assert!(keyword_filter.matches("WARN timeout", &record(LogLevel::Error, "other")));
}

#[test]
fn nested_filters_combine() {
    let info = LogLevelFilter::new(LogLevel::Info);
    let error = LogLevelFilter::new(LogLevel::Error);
    let either = OrFilter::new(info, error);
    let keyword = KeywordFilter::new("retry".to_string(), false);
    let both = AndFilter::new(keyword, either);
    assert!(both.matches("ERROR retry failed", &record(LogLevel::Error, "retry failed")));
    assert!(!both.matches("WARN retry soon", &record(LogLevel::Warn, "retry soon")));
    assert!(!both.matches("ERROR gave up", &record(LogLevel::Error, "gave up")));
}

#[test]
fn ignore_case_follows_whole_string_lowercasing() {
    // A final capital sigma lower-cases differently from one inside a word.
    assert!(line_matches("INFO ΑΣΒ", "ΑΣ", false));
    assert!(!line_matches("INFO ΑΣΒ", "ΑΣ", true));
    assert_eq!(line_matches("INFO ΑΣΒ", "ΑΣ", true), "INFO ΑΣΒ".to_lowercase().contains(&"ΑΣ".to_lowercase()));
}

#[test]
fn ignore_case_keeps_ascii_matches() {
    for (line, keyword) in [("INFO Retry now", "Retry"), ("warn X-1", "X-1"), ("a", "")] {
        assert!(line_matches(line, keyword, false));
        assert!(line_matches(line, keyword, true));
    }
    assert!(line_matches("WARN DISK full", "disk FULL", true));
}
