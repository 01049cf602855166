//! The records that a log file is made of.

use vstd::prelude::*;

verus! {

/// The severity written at the start of a log line.
#[derive(Debug, Clone, Copy, PartialEq, Eq, Structural)]
pub enum LogLevel {
    Info,
    Warn,
    Error,
}

/// One parsed log line: an optional Unix timestamp, a level and the message after it.
#[derive(Debug, PartialEq)]
pub struct LogRecord {
    pub unix_timestamp_seconds: Option<u64>,
    pub level: LogLevel,
    pub message: String,
}

/// A log record with its message taken as a sequence of characters.
pub struct LogRecordView {
    pub unix_timestamp_seconds: Option<u64>,
    pub level: LogLevel,
    pub message: Seq<char>,
}

impl View for LogRecord {
    type V = LogRecordView;

    open spec fn view(&self) -> LogRecordView {
        LogRecordView {
            unix_timestamp_seconds: self.unix_timestamp_seconds,
            level: self.level,
            message: self.message@,
        }
    }
}

} // verus!
