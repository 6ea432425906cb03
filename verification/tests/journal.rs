//! The session journal.

use arkyve_refresh_shop::journal::{EventLog, JOURNAL_CAP};
use arkyve_refresh_shop::level::LogLevel;

#[test]
fn journal_caps_entries() {
    let mut journal = EventLog::default();
    for i in 0..(JOURNAL_CAP + 100) {
        journal.push(0, &[format!("line {i}")]);
    }
    let entries = journal.to_entries();
    assert_eq!(entries.len(), JOURNAL_CAP);
    assert_eq!(&*entries.first().unwrap().text, "line 100");
    assert_eq!(
        &*entries.last().unwrap().text,
        format!("line {}", JOURNAL_CAP + 99)
    );
}

#[test]
fn empty_push_is_ignored() {
    let mut journal = EventLog::default();
    journal.push(0, &[]);
    assert!(journal.to_entries().is_empty());
    assert_eq!(journal.generation(), 0);
}

#[test]
fn emit_at_records_every_level_in_the_ring() {
    // The level only steers the log file; the ring must hold the line
    // regardless, or a failure would show in the log but not the window.
    let mut journal = EventLog::default();
    let mut recorded = Vec::new();
    for level in [LogLevel::Error, LogLevel::Warn, LogLevel::Info] {
        recorded.extend(journal.emit_at(level, 0, &[level.label().to_owned()]));
    }
    let texts: Vec<String> = journal
        .to_entries()
        .into_iter()
        .map(|line| line.text.to_string())
        .collect();
    assert_eq!(texts, ["ERROR", "WARN", "INFO"]);
    let levels: Vec<LogLevel> = recorded.iter().map(|record| record.level).collect();
    assert_eq!(levels, [LogLevel::Error, LogLevel::Warn, LogLevel::Info]);
}

#[test]
fn generation_changes_on_push() {
    let mut journal = EventLog::default();
    let before = journal.generation();
    journal.push(0, &["line".to_owned()]);
    assert_ne!(journal.generation(), before);
}

#[test]
fn every_written_line_is_one_change() {
    let mut journal = EventLog::default();
    journal.emit(0, &["one".to_owned(), "two".to_owned()]);
    assert_eq!(journal.generation(), 1);
    journal.emit_at(LogLevel::Warn, 0, &["three".to_owned()]);
    assert_eq!(journal.generation(), 2);
    journal.emit(0, &[]);
    journal.emit_at(LogLevel::Error, 0, &[]);
    assert_eq!(journal.generation(), 2);
}

#[test]
fn the_journal_is_in_the_order_of_the_clock() {
    let mut journal = EventLog::default();
    for at_ms in [3_u64, 3, 8, 20] {
        journal.push(at_ms, &vec!["line".to_owned(); JOURNAL_CAP / 3]);
    }
    let stamps: Vec<u64> = journal.to_entries().iter().map(|line| line.at_ms).collect();
    assert_eq!(stamps.len(), JOURNAL_CAP);
    assert!(stamps.windows(2).all(|pair| pair[0] <= pair[1]));
    assert_eq!(stamps.last(), Some(&20));
}

#[test]
fn timestamps_are_the_clocks() {
    let mut journal = EventLog::default();
    journal.push(EventLog::now_ms(12), &["first".to_owned()]);
    journal.push(EventLog::now_ms(u128::MAX), &["second".to_owned()]);
    let entries = journal.to_entries();
    assert_eq!(entries[0].at_ms, 12);
    assert_eq!(entries[1].at_ms, u64::MAX);
    let debug = journal.emit_at(LogLevel::Debug, 0, &["quiet".to_owned()]);
    assert_eq!(debug[0].level, LogLevel::Info);
    assert_eq!(journal.emit(0, &["news".to_owned()])[0].level, LogLevel::Info);
}
