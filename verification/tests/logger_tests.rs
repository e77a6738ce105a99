use std::sync::Mutex;

use snb::logger::{LogLevel, Logger, RecordLevel};

#[test]
fn log_levels_parse_without_regard_to_case() {
    assert_eq!(LogLevel::parse("DeBuG"), Ok(LogLevel::Debug));
    assert_eq!(LogLevel::parse("info"), Ok(LogLevel::Info));
    assert_eq!(LogLevel::parse("WARN"), Ok(LogLevel::Warn));
    assert_eq!(LogLevel::parse("Error"), Ok(LogLevel::Error));
    assert_eq!(
        LogLevel::parse("verbose"),
        Err("unknown log level: \"verbose\" (expected debug/info/warn/error)".to_string())
    );
    assert!(LogLevel::Debug < LogLevel::Info && LogLevel::Warn < LogLevel::Error);
}

#[test]
fn numeric_level_codes() {
    assert_eq!(RecordLevel::from_code(1), Some(RecordLevel::Error));
    assert_eq!(RecordLevel::from_code(3), Some(RecordLevel::Info));
    assert_eq!(RecordLevel::from_code(5), Some(RecordLevel::Trace));
    assert_eq!(RecordLevel::from_code(99), None);
    assert_eq!(RecordLevel::Trace.to_log_level(), LogLevel::Debug);
    assert_eq!(LogLevel::Warn.record_level(), RecordLevel::Warn);
}

struct Recorder {
    seen: Mutex<Vec<(LogLevel, String, String)>>,
}

impl Logger for Recorder {
    fn log(&self, level: LogLevel, source: &str, message: &str) {
        self.seen.lock().unwrap().push((level, source.to_string(), message.to_string()));
    }
}

#[test]
fn logger_helpers_log_at_their_level() {
    let r = Recorder { seen: Mutex::new(Vec::new()) };
    r.debug("s", "d");
    r.info("s", "i");
    r.warn("s", "w");
    r.error("s", "e");
    let seen = r.seen.lock().unwrap();
    let levels: Vec<LogLevel> = seen.iter().map(|e| e.0).collect();
    assert_eq!(levels, vec![LogLevel::Debug, LogLevel::Info, LogLevel::Warn, LogLevel::Error]);
    assert_eq!(seen[3].1, "s");
    assert_eq!(seen[3].2, "e");
}
