//! Severity levels and the layout of one log line. Writing the line out is
//! the caller's business.
use vstd::prelude::*;

verus! {

pub enum LogLevel {
    Info,
    Error,
    Warn,
    Debug,
}

pub open spec fn level_name(level: LogLevel) -> Seq<char> {
    match level {
        LogLevel::Info => "INFO"@,
        LogLevel::Error => "ERROR"@,
        LogLevel::Warn => "WARN"@,
        LogLevel::Debug => "DEBUG"@,
    }
}

/// `[timestamp] [LEVEL] [function]: "message"`
pub open spec fn log_line(
    timestamp: Seq<char>,
    level: LogLevel,
    function: Seq<char>,
    message: Seq<char>,
) -> Seq<char> {
    "["@ + timestamp + "] ["@ + level_name(level) + "] ["@ + function + "]: \""@ + message + "\""@
}

impl LogLevel {
    pub fn level_to_str(&self) -> (r: &'static str)
        ensures
            r@ == level_name(*self),
    {
        match self {
            LogLevel::Info => "INFO",
            LogLevel::Error => "ERROR",
            LogLevel::Warn => "WARN",
            LogLevel::Debug => "DEBUG",
        }
    }
}

/// The line that records `message`, raised in `function` at `level`, at the
/// time `timestamp`.
pub fn format_log_line(timestamp: &str, level: &LogLevel, function: &str, message: &str) -> (r:
    String)
    ensures
        r@ == log_line(timestamp@, *level, function@, message@),
{
    let mut line = String::from_str("[");
    line.append(timestamp);
    line.append("] [");
    line.append(level.level_to_str());
    line.append("] [");
    line.append(function);
    line.append("]: \"");
    line.append(message);
    line.append("\"");
    line
}

} // verus!
