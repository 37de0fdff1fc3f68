//! Structured log entries.
use vstd::prelude::*;
use crate::ext::{is_rfc3339_utc, utc_now_rfc3339};

verus! {

/// How severe a log message is.
#[derive(Debug, Clone, Copy, PartialEq, Eq, Structural)]
pub enum LogLevel {
    ERROR,
    WARN,
    INFO,
    DEBUG,
    TRACE,
}

/// The part of the framework a message comes from.
#[derive(Debug, Clone, Copy, PartialEq, Eq, Structural)]
pub enum Component {
    Router,
    Handler,
    Cache,
    Config,
}

/// Where in the source a message was logged: file, line and column.
pub type SourceLocation<'a> = (&'a str, u32, u32);

/// One log message with its context; `C` is the type of the codes that
/// identify messages.
#[derive(Debug)]
pub struct LogEntry<'a, C> {
    pub timestamp: String,
    pub level: LogLevel,
    pub code: C,
    pub thread_id: Option<&'a str>,
    pub file: Option<&'a str>,
    pub line: Option<u32>,
    pub column: Option<u32>,
    pub exchange_id: u128,
    pub component: Component,
    pub message: &'a str,
}

impl<'a, C> LogEntry<'a, C> {
    /// An entry stamped with the current time; the source location, when
    /// given, fills the file, line and column.
    pub fn new(
        log_level: LogLevel,
        code: C,
        thread_id: Option<&'a str>,
        message: &'a str,
        component: Component,
        uuid: u128,
        location: Option<SourceLocation<'a>>,
    ) -> (e: Self)
        ensures
            is_rfc3339_utc(e.timestamp@),
            e.level == log_level,
            e.code == code,
            e.thread_id == thread_id,
            e.message == message,
            e.component == component,
            e.exchange_id == uuid,
            match location {
                None => e.file is None && e.line is None && e.column is None,
                Some((file, line, column)) => e.file == Some(file) && e.line == Some(line) && e.column == Some(column),
            },
    {
        match location {
            None => LogEntry {
                timestamp: utc_now_rfc3339(),
                level: log_level,
                thread_id,
                code,
                file: None,
                line: None,
                column: None,
                exchange_id: uuid,
                component,
                message,
            },
            Some((file, line, column)) => LogEntry {
                timestamp: utc_now_rfc3339(),
                level: log_level,
                thread_id,
                code,
                file: Some(file),
                line: Some(line),
                column: Some(column),
                exchange_id: uuid,
                component,
                message,
            },
        }
    }
}

} // verus!
