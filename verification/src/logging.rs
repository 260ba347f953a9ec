//! Log levels, their terminal colours, and the layout of a log line.
use vstd::prelude::*;
use crate::text::{chars_of, string_of, push_str, push_all, str_eq, lowercase, to_lowercase, decimal, decimal_exec};

verus! {

/// The level of a log record.
#[derive(Debug, Clone, Copy, PartialEq, Eq, Structural)]
pub enum LogLevel {
    Error,
    Warn,
    Info,
    Debug,
    Trace,
}

/// The ANSI colour of each level.
pub open spec fn level_color(level: LogLevel) -> Seq<char> {
    match level {
        LogLevel::Error => "\x1B[31m"@,
        LogLevel::Warn => "\x1B[33m"@,
        LogLevel::Info => "\x1B[32m"@,
        LogLevel::Debug => "\x1B[36m"@,
        LogLevel::Trace => "\x1B[35m"@,
    }
}

/// The ANSI code that ends a colour.
pub open spec fn color_reset() -> Seq<char> {
    "\x1B[0m"@
}

/// How a level is written in a log line.
pub open spec fn level_name(level: LogLevel) -> Seq<char> {
    match level {
        LogLevel::Error => "ERROR"@,
        LogLevel::Warn => "WARN"@,
        LogLevel::Info => "INFO"@,
        LogLevel::Debug => "DEBUG"@,
        LogLevel::Trace => "TRACE"@,
    }
}

/// Colours for the log levels on the terminal.
pub struct LevelColors;

impl LevelColors {
    /// The colour code of `level`.
    pub fn get_color(level: LogLevel) -> (c: &'static str)
        ensures
            c@ == level_color(level),
    {
        match level {
            LogLevel::Error => "\x1B[31m",
            LogLevel::Warn => "\x1B[33m",
            LogLevel::Info => "\x1B[32m",
            LogLevel::Debug => "\x1B[36m",
            LogLevel::Trace => "\x1B[35m",
        }
    }

    /// The code that resets the colour.
    pub fn reset() -> (c: &'static str)
        ensures
            c@ == color_reset(),
    {
        "\x1B[0m"
    }
}

/// The name of `level` in a log line.
pub fn level_text(level: LogLevel) -> (s: &'static str)
    ensures
        s@ == level_name(level),
{
    match level {
        LogLevel::Error => "ERROR",
        LogLevel::Warn => "WARN",
        LogLevel::Info => "INFO",
        LogLevel::Debug => "DEBUG",
        LogLevel::Trace => "TRACE",
    }
}

/// The level that a lower-case level name selects; `info` for any other
/// name.
pub open spec fn level_of_name(lower: Seq<char>) -> LogLevel {
    if lower == "error"@ {
        LogLevel::Error
    } else if lower == "warn"@ {
        LogLevel::Warn
    } else if lower == "info"@ {
        LogLevel::Info
    } else if lower == "debug"@ {
        LogLevel::Debug
    } else if lower == "trace"@ {
        LogLevel::Trace
    } else {
        LogLevel::Info
    }
}

/// The level that the lower-case name `lower` selects.
pub fn level_from_lowercase(lower: &str) -> (l: LogLevel)
    ensures
        l == level_of_name(lower@),
{
    if str_eq(lower, "error") {
        LogLevel::Error
    } else if str_eq(lower, "warn") {
        LogLevel::Warn
    } else if str_eq(lower, "info") {
        LogLevel::Info
    } else if str_eq(lower, "debug") {
        LogLevel::Debug
    } else if str_eq(lower, "trace") {
        LogLevel::Trace
    } else {
        LogLevel::Info
    }
}

/// The level that a `--log-level` value selects, whatever its case.
pub fn parse_log_level(log_level: &str) -> (l: LogLevel)
    ensures
        l == level_of_name(lowercase(log_level@)),
{
    let lower = to_lowercase(log_level);
    level_from_lowercase(lower.as_str())
}

/// Whether records of `level` are written with their source location
/// (debug and trace) rather than the program's name.
pub open spec fn shows_location(level: LogLevel) -> bool {
    level == LogLevel::Debug || level == LogLevel::Trace
}

/// A log line: `[timestamp LEVEL stackql_deploy] message` for error, warn
/// and info, `[timestamp LEVEL file (line)] message` for debug and trace,
/// the level coloured.
pub open spec fn log_line(timestamp: Seq<char>, level: LogLevel, file_name: Seq<char>, line: u32, message: Seq<char>) -> Seq<char> {
    let head = "["@ + timestamp + " "@ + level_color(level) + level_name(level) + color_reset();
    if shows_location(level) {
        head + " "@ + file_name + " ("@ + decimal(line as nat) + ")] "@ + message
    } else {
        head + " stackql_deploy] "@ + message
    }
}

/// Lays out one log record.
pub fn format_log_line(timestamp: &str, level: LogLevel, file_name: &str, line: u32, message: &str) -> (r: String)
    ensures
        r@ == log_line(timestamp@, level, file_name@, line, message@),
{
    let mut t = chars_of("[");
    push_str(&mut t, timestamp);
    push_str(&mut t, " ");
    push_str(&mut t, LevelColors::get_color(level));
    push_str(&mut t, level_text(level));
    push_str(&mut t, LevelColors::reset());
    let ghost head = t@;
    if level == LogLevel::Debug || level == LogLevel::Trace {
        push_str(&mut t, " ");
        push_str(&mut t, file_name);
        push_str(&mut t, " (");
        let digits = decimal_exec(line as u64);
        push_all(&mut t, digits.as_slice());
        push_str(&mut t, ")] ");
        push_str(&mut t, message);
    } else {
        push_str(&mut t, " stackql_deploy] ");
        push_str(&mut t, message);
    }
    string_of(t.as_slice())
}

} // verus!
