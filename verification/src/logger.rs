//! Log levels, the logger abstraction, and the level mappings used when log
//! records cross between this library and the `log` facade.
use vstd::prelude::*;

use crate::config::{find_entry, find_key, toml_table_entries, toml_table_strings};
use crate::text::{ascii_lower, ascii_lowercase, chars_are, debug_quoted, debug_str, push_str};

verus! {

/// Severity level for log messages, ordered from least to most severe:
/// `Debug < Info < Warn < Error`.
#[derive(Debug, Clone, Copy, PartialEq, Eq, PartialOrd, Ord)]
pub enum LogLevel {
    Debug,
    Info,
    Warn,
    Error,
}

/// The level that `s` names, compared without regard to ASCII case.
pub open spec fn log_level_named(s: Seq<char>) -> Option<LogLevel> {
    let l = ascii_lower(s);
    if l == "debug"@ {
        Some(LogLevel::Debug)
    } else if l == "info"@ {
        Some(LogLevel::Info)
    } else if l == "warn"@ {
        Some(LogLevel::Warn)
    } else if l == "error"@ {
        Some(LogLevel::Error)
    } else {
        None
    }
}

/// The message for a name that is no log level.
pub open spec fn unknown_level_message(s: Seq<char>) -> Seq<char> {
    "unknown log level: "@ + debug_quoted(s) + " (expected debug/info/warn/error)"@
}

impl LogLevel {
    /// Parses a level name, ignoring ASCII case (what `FromStr` does).
    pub fn parse(s: &str) -> (r: Result<LogLevel, String>)
        ensures
            match log_level_named(s@) {
                Some(l) => r == Ok::<LogLevel, String>(l),
                None => r matches Err(m) && m@ == unknown_level_message(s@),
            },
    {
        let l = ascii_lowercase(s);
        if chars_are(&l, "debug") {
            Ok(LogLevel::Debug)
        } else if chars_are(&l, "info") {
            Ok(LogLevel::Info)
        } else if chars_are(&l, "warn") {
            Ok(LogLevel::Warn)
        } else if chars_are(&l, "error") {
            Ok(LogLevel::Error)
        } else {
            let mut m = String::new();
            push_str(&mut m, "unknown log level: ");
            let q = debug_str(s);
            push_str(&mut m, q.as_str());
            push_str(&mut m, " (expected debug/info/warn/error)");
            Err(m)
        }
    }

    /// The `log` facade level a record of this level is emitted at.
    pub fn record_level(self) -> (r: RecordLevel)
        ensures
            r == log_to_record(self),
    {
        match self {
            LogLevel::Debug => RecordLevel::Debug,
            LogLevel::Info => RecordLevel::Info,
            LogLevel::Warn => RecordLevel::Warn,
            LogLevel::Error => RecordLevel::Error,
        }
    }
}

/// The levels of the `log` facade's records (`log::Level`), most severe first.
#[derive(Debug, Clone, Copy, PartialEq, Eq)]
pub enum RecordLevel {
    Error,
    Warn,
    Info,
    Debug,
    Trace,
}

impl RecordLevel {
    /// The record level for a numeric level code: 1 error, 2 warn, 3 info,
    /// 4 debug, 5 trace; any other code is ignored.
    pub fn from_code(code: u8) -> (r: Option<RecordLevel>)
        ensures
            r == (if code == 1 {
                Some(RecordLevel::Error)
            } else if code == 2 {
                Some(RecordLevel::Warn)
            } else if code == 3 {
                Some(RecordLevel::Info)
            } else if code == 4 {
                Some(RecordLevel::Debug)
            } else if code == 5 {
                Some(RecordLevel::Trace)
            } else {
                None
            }),
    {
        match code {
            1 => Some(RecordLevel::Error),
            2 => Some(RecordLevel::Warn),
            3 => Some(RecordLevel::Info),
            4 => Some(RecordLevel::Debug),
            5 => Some(RecordLevel::Trace),
            _ => None,
        }
    }

    /// The logger level a `log` record is forwarded at (trace folds into debug).
    pub fn to_log_level(self) -> (l: LogLevel)
        ensures
            l == record_to_log(self),
    {
        match self {
            RecordLevel::Error => LogLevel::Error,
            RecordLevel::Warn => LogLevel::Warn,
            RecordLevel::Info => LogLevel::Info,
            RecordLevel::Debug => LogLevel::Debug,
            RecordLevel::Trace => LogLevel::Debug,
        }
    }
}

/// Logger abstraction used by the bot and plugins.
pub trait Logger: Send + Sync {
    fn log(&self, level: LogLevel, source: &str, message: &str);

    fn debug(&self, source: &str, msg: &str) {
        self.log(LogLevel::Debug, source, msg);
    }

    fn info(&self, source: &str, msg: &str) {
        self.log(LogLevel::Info, source, msg);
    }

    fn warn(&self, source: &str, msg: &str) {
        self.log(LogLevel::Warn, source, msg);
    }

    fn error(&self, source: &str, msg: &str) {
        self.log(LogLevel::Error, source, msg);
    }
}

/// The `log` facade level a record of level `l` is emitted at.
pub open spec fn log_to_record(l: LogLevel) -> RecordLevel {
    match l {
        LogLevel::Debug => RecordLevel::Debug,
        LogLevel::Info => RecordLevel::Info,
        LogLevel::Warn => RecordLevel::Warn,
        LogLevel::Error => RecordLevel::Error,
    }
}

/// The logger level a `log` record of level `r` is forwarded at.
pub open spec fn record_to_log(r: RecordLevel) -> LogLevel {
    match r {
        RecordLevel::Error => LogLevel::Error,
        RecordLevel::Warn => LogLevel::Warn,
        RecordLevel::Info => LogLevel::Info,
        RecordLevel::Debug => LogLevel::Debug,
        RecordLevel::Trace => LogLevel::Debug,
    }
}

/// A message logged through the `log` facade comes back at the level it was
/// logged at.
pub proof fn lemma_level_round_trip(l: LogLevel)
    ensures
        record_to_log(log_to_record(l)) == l,
{
}

/// The level filters of the `log` facade (`log::LevelFilter`), from logging
/// nothing to logging everything.
#[derive(Debug, Clone, Copy, PartialEq, Eq)]
pub enum LogFilter {
    Off,
    Error,
    Warn,
    Info,
    Debug,
    Trace,
}

/// The filter `s` names, compared without regard to ASCII case (what
/// `log::LevelFilter`'s `FromStr` accepts).
pub open spec fn log_filter_named(s: Seq<char>) -> Option<LogFilter> {
    let l = ascii_lower(s);
    if l == "off"@ {
        Some(LogFilter::Off)
    } else if l == "error"@ {
        Some(LogFilter::Error)
    } else if l == "warn"@ {
        Some(LogFilter::Warn)
    } else if l == "info"@ {
        Some(LogFilter::Info)
    } else if l == "debug"@ {
        Some(LogFilter::Debug)
    } else if l == "trace"@ {
        Some(LogFilter::Trace)
    } else {
        None
    }
}

/// Parses a level filter name, ignoring ASCII case.
pub fn parse_log_filter(s: &str) -> (r: Option<LogFilter>)
    ensures
        r == log_filter_named(s@),
{
    let l = ascii_lowercase(s);
    if chars_are(&l, "off") {
        Some(LogFilter::Off)
    } else if chars_are(&l, "error") {
        Some(LogFilter::Error)
    } else if chars_are(&l, "warn") {
        Some(LogFilter::Warn)
    } else if chars_are(&l, "info") {
        Some(LogFilter::Info)
    } else if chars_are(&l, "debug") {
        Some(LogFilter::Debug)
    } else if chars_are(&l, "trace") {
        Some(LogFilter::Trace)
    } else {
        None
    }
}

/// The log filter a bot configuration text asks for: the top-level
/// `log_level` string when the text is a TOML document and the string names
/// a filter; `Info` otherwise.
pub open spec fn configured_filter(text: Seq<char>) -> LogFilter {
    match toml_table_strings(text, None) {
        Ok(Some(es)) => match find_key(es, "log_level"@) {
            Some(Some(s)) => match log_filter_named(s) {
                Some(f) => f,
                None => LogFilter::Info,
            },
            _ => LogFilter::Info,
        },
        _ => LogFilter::Info,
    }
}

/// The log filter a bot configuration text asks for (see [`configured_filter`]).
pub fn log_level_from_config(text: &str) -> (r: LogFilter)
    ensures
        r == configured_filter(text@),
{
    match toml_table_entries(text, None) {
        Ok(Some(es)) => match find_entry(&es, "log_level") {
            Some(Some(s)) => match parse_log_filter(s.as_str()) {
                Some(f) => f,
                None => LogFilter::Info,
            },
            _ => LogFilter::Info,
        },
        _ => LogFilter::Info,
    }
}

} // verus!
