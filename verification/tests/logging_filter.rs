use multiplexer::logging::{buffer_entry, init, take_lines, BufferedLogger, Level, LevelFilter};

#[test]
fn logger_filters_below_max_level() {
    let logger: &'static BufferedLogger = Box::leak(Box::new(BufferedLogger::new()));
    init(logger, LevelFilter::Info).unwrap();
    logger.take_entries();
    logger.record(Level::Debug, "hidden");
    logger.record(Level::Info, "shown");
    let entries = logger.take_entries();
    assert_eq!(entries.len(), 1);
    assert!(entries[0].contains("[INFO"));
}

#[test]
fn entry_lines_have_stamp_label_and_message() {
    assert_eq!(
        BufferedLogger::format_entry("1.250", Level::Warn, "disk"),
        "[+1.250s] [WARN ] disk"
    );
    assert!(BufferedLogger::enabled_at(Level::Error, LevelFilter::Error));
    assert!(!BufferedLogger::enabled_at(Level::Error, LevelFilter::Off));
    assert!(!BufferedLogger::enabled_at(Level::Trace, LevelFilter::Debug));
}

#[test]
fn offered_lines_are_kept_in_order_or_dropped() {
    let mut lines: Vec<String> = Vec::new();
    buffer_entry(&mut lines, Level::Debug, LevelFilter::Info, "0.001", "hidden");
    assert!(lines.is_empty());
    buffer_entry(&mut lines, Level::Info, LevelFilter::Info, "0.002", "first");
    buffer_entry(&mut lines, Level::Error, LevelFilter::Info, "0.003", "second");
    buffer_entry(&mut lines, Level::Trace, LevelFilter::Off, "0.004", "never");
    buffer_entry(&mut lines, Level::Error, LevelFilter::Off, "0.005", "never");
    assert_eq!(
        lines,
        vec!["[+0.002s] [INFO ] first".to_string(), "[+0.003s] [ERROR] second".to_string()]
    );
    let taken = take_lines(&mut lines);
    assert_eq!(
        taken,
        vec!["[+0.002s] [INFO ] first".to_string(), "[+0.003s] [ERROR] second".to_string()]
    );
    assert!(lines.is_empty());
    assert!(take_lines(&mut lines).is_empty());
}
