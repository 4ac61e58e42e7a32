use std::sync::{Mutex, OnceLock};

use multiplexer::logging::{init, BufferedLogger, Level, LevelFilter};

/// The logger and the maximum level are process-wide, so the tests in this
/// file share one logger and take turns with it.
static LOGGER: OnceLock<BufferedLogger> = OnceLock::new();
static TEST_LOCK: Mutex<()> = Mutex::new(());

fn reset(max_level: LevelFilter) -> &'static BufferedLogger {
    let logger = LOGGER.get_or_init(BufferedLogger::new);
    init(logger, max_level).unwrap();
    logger.take_entries();
    logger
}

#[test]
fn buffered_logger_captures_level_and_message() {
    let _guard = TEST_LOCK.lock().unwrap_or_else(|e| e.into_inner());
    let logger = reset(LevelFilter::Debug);
    logger.record(Level::Debug, &format!("scroll offset {}", 42));
    let entries = logger.take_entries();
    assert_eq!(entries.len(), 1);
    assert!(entries[0].contains("[DEBUG]"));
    assert!(entries[0].contains("scroll offset 42"));
}

#[test]
fn log_records_reach_the_installed_logger() {
    let _guard = TEST_LOCK.lock().unwrap_or_else(|e| e.into_inner());
    let logger = reset(LevelFilter::Trace);
    let record = log::Record::builder().level(log::Level::Warn).build();
    log::logger().log(&record);
    let entries = logger.take_entries();
    assert_eq!(entries.len(), 1);
    assert!(entries[0].contains("[WARN ]"));
}

#[test]
fn log_records_above_the_max_level_are_dropped() {
    let _guard = TEST_LOCK.lock().unwrap_or_else(|e| e.into_inner());
    let logger = reset(LevelFilter::Info);
    let hidden = log::Record::builder().level(log::Level::Debug).build();
    assert!(!log::logger().enabled(hidden.metadata()));
    log::logger().log(&hidden);
    let shown = log::Record::builder().level(log::Level::Info).build();
    log::logger().log(&shown);
    let entries = logger.take_entries();
    assert_eq!(entries.len(), 1);
    assert!(entries[0].contains("[INFO "));
}

#[test]
fn lines_are_stamped_with_seconds() {
    let _guard = TEST_LOCK.lock().unwrap_or_else(|e| e.into_inner());
    let logger = reset(LevelFilter::Trace);
    logger.record(Level::Trace, "tick");
    let entries = logger.take_entries();
    assert_eq!(entries.len(), 1);
    let line = &entries[0];
    assert!(line.starts_with("[+"));
    let stamp_end = line.find("s] ").unwrap();
    let stamp = &line[2..stamp_end];
    let (whole, fraction) = stamp.split_once('.').unwrap();
    assert!(whole.parse::<u64>().is_ok());
    assert_eq!(fraction.len(), 3);
    assert!(line.ends_with("s] [TRACE] tick"));
    assert!(logger.take_entries().is_empty());
}
