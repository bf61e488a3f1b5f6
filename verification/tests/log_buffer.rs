use sift::log_buffer::{CAPACITY, LogBuffer, LogEntry, LogLevel};
use sift::timestamp::Timestamp;

fn entry(n: usize) -> LogEntry {
    LogEntry {
        time: Timestamp::of(time::OffsetDateTime::UNIX_EPOCH),
        level: LogLevel::Info,
        target: "sift".to_owned(),
        message: format!("entry {n}"),
    }
}

#[test]
fn log_keeps_the_newest_entries_in_order() {
    let mut log = LogBuffer::new();
    assert!(log.is_empty());
    for n in 0..CAPACITY + 5 {
        log.push(entry(n));
    }
    assert_eq!(log.len(), CAPACITY);
    assert_eq!(log.get(0).unwrap().message, "entry 5");
    assert_eq!(log.get(CAPACITY - 1).unwrap().message, format!("entry {}", CAPACITY + 4));
    assert!(log.get(CAPACITY).is_none());
    log.clear();
    assert_eq!(log.len(), 0);
}

#[test]
fn log_below_capacity_keeps_everything() {
    let mut log = LogBuffer::new();
    log.push(entry(1));
    log.push(entry(2));
    assert_eq!(log.len(), 2);
    assert_eq!(log.get(0).unwrap().message, "entry 1");
    assert_eq!(log.get(1).unwrap().level, LogLevel::Info);
}
