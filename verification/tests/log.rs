use melodium_libs::log::logger::Logger;
use melodium_libs::log::level::{self, LogLevel};
use melodium_libs::log::record::{console_line, filter_logs, log_block, log_stream, Log, Timestamp};

fn at(secs: i64) -> Timestamp {
    Timestamp { secs, nanos: 0 }
}

fn log(level: LogLevel, label: &str, message: &str) -> Log {
    Log::new(at(0), level, label.to_string(), message.to_string())
}

#[test]
fn level_functions() {
    assert!(level::error().level == LogLevel::Error);
    assert!(level::warning().level == LogLevel::Warning);
    assert!(level::info().level == LogLevel::Info);
    assert!(level::debug().level == LogLevel::Debug);
    assert!(level::trace().level == LogLevel::Trace);
    assert!(level::level_bounded_min().level == LogLevel::Trace);
    assert!(level::level_bounded_max().level == LogLevel::Error);
    assert_eq!(LogLevel::Warning.name(), "warning");
    assert!(LogLevel::Error.is_before(&LogLevel::Debug));
    assert!(!LogLevel::Trace.is_before(&LogLevel::Info));
}

#[test]
fn log_text() {
    let l = Log::new(Timestamp { secs: 1_700_000_000, nanos: 123_456_789 }, LogLevel::Info, "net".to_string(), "up".to_string());
    assert_eq!(l.to_string(), "[2023-11-14T22:13:20.123Z] info: net: up");
    assert_eq!(log(LogLevel::Error, "a", "b").to_string(), "[1970-01-01T00:00:00.000Z] error: a: b");
}

#[test]
fn console_lines() {
    let l = log(LogLevel::Debug, "db", "query");
    let line = console_line(&l, false);
    assert_eq!(line.before, "");
    assert!(line.level == LogLevel::Debug);
    assert_eq!(line.after, ": db: query");
    let line = console_line(&l, true);
    assert_eq!(line.before, "[1970-01-01T00:00:00.000Z] ");
}

#[test]
fn filtering_logs() {
    let logs = vec![log(LogLevel::Error, "a", "1"), log(LogLevel::Info, "a", "2"), log(LogLevel::Error, "b", "3")];
    let kept = filter_logs(&logs, &vec![level::error()], &vec!["a".to_string(), "c".to_string()]);
    assert_eq!(kept.len(), 1);
    assert_eq!(kept[0].message, "1");
    assert!(filter_logs(&logs, &vec![], &vec!["a".to_string()]).is_empty());
}

#[test]
fn logging_messages() {
    let logs = log_stream(level::warning(), &"lbl".to_string(), &vec!["x".to_string(), "y".to_string()], &vec![at(1), at(2)]);
    assert_eq!(logs.len(), 2);
    assert_eq!(logs[1].message, "y");
    assert_eq!(logs[1].timestamp.secs, 2);
    assert!(logs[0].level == LogLevel::Warning);
    let l = log_block(level::trace(), &"t".to_string(), "m".to_string(), at(5));
    assert_eq!(l.label, "t");
    assert!(l.level == LogLevel::Trace);
}

#[test]
fn logger_passes_batches_to_every_reader() {
    let mut logger = Logger::new();
    let first = logger.add_reader();
    assert!(logger.send_logs(&vec![log(LogLevel::Info, "a", "1")]));
    let second = logger.add_reader();
    assert!(logger.send_logs(&vec![log(LogLevel::Info, "a", "2"), log(LogLevel::Info, "a", "3")]));
    let got: Vec<String> = logger.delivered[first].iter().map(|l| l.message.clone()).collect();
    assert_eq!(got, vec!["1", "2", "3"]);
    let got: Vec<String> = logger.delivered[second].iter().map(|l| l.message.clone()).collect();
    assert_eq!(got, vec!["2", "3"]);
    let entry = logger.add_entry();
    assert!(!logger.may_close());
    assert!(!logger.close_common());
    assert!(logger.send_logs(&vec![log(LogLevel::Info, "a", "3b")]));
    logger.end_entry(entry);
    assert!(logger.may_close());
    assert!(logger.close_common());
    assert!(!logger.send_logs(&vec![log(LogLevel::Info, "a", "4")]));
    assert_eq!(logger.delivered[first].len(), 4);
    let mut other = Logger::new();
    other.shutdown();
    assert!(!other.send_logs(&vec![log(LogLevel::Info, "a", "5")]));
}
