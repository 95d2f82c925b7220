use retrotex::logs::{
    crate_name_for_record, entry_lifetime_ms, level_enabled, log_line, LogLevel, LogOverlay, LogOverlayEntry,
};
use std::sync::{Arc, Mutex};

#[test]
fn crate_of_a_record() {
    assert_eq!(crate_name_for_record(Some("retrotex::file::io"), "ignored"), "retrotex");
    assert_eq!(crate_name_for_record(Some("eframe"), "x"), "eframe");
    assert_eq!(crate_name_for_record(None, "wgpu_core::device"), "wgpu_core");
    assert_eq!(crate_name_for_record(None, ""), "");
    assert_eq!(crate_name_for_record(Some("a:b::c"), ""), "a:b");
    assert_eq!(crate_name_for_record(Some("::lead"), ""), "");
}

#[test]
fn filtering_by_target() {
    assert!(level_enabled("retrotex::file", "retrotex", LogLevel::Info, LogLevel::Info));
    assert!(!level_enabled("retrotex::file", "retrotex", LogLevel::Info, LogLevel::Debug));
    assert!(level_enabled("retrotex", "retrotex", LogLevel::Trace, LogLevel::Trace));
    assert!(level_enabled("winit", "retrotex", LogLevel::Trace, LogLevel::Warn));
    assert!(level_enabled("winit", "retrotex", LogLevel::Trace, LogLevel::Error));
    assert!(!level_enabled("winit", "retrotex", LogLevel::Trace, LogLevel::Info));
    assert!(!level_enabled("retro", "retrotex", LogLevel::Trace, LogLevel::Info));
}

#[test]
fn file_line() {
    assert_eq!(
        log_line("2024-01-02 03:04:05.006", LogLevel::Warn, "retrotex", "disk full"),
        "2024-01-02 03:04:05.006 [WARN] [retrotex] disk full"
    );
    assert_eq!(log_line("t", LogLevel::Trace, "c", ""), "t [TRACE] [c] ");
}

#[test]
fn lifetimes() {
    assert_eq!(entry_lifetime_ms(LogLevel::Error), 5000);
    assert_eq!(entry_lifetime_ms(LogLevel::Warn), 5000);
    assert_eq!(entry_lifetime_ms(LogLevel::Info), 2000);
    assert_eq!(entry_lifetime_ms(LogLevel::Trace), 2000);
}

#[test]
fn overlay_collects_and_expires_records() {
    let queue = Arc::new(Mutex::new(Vec::new()));
    let mut overlay = LogOverlay::new(queue.clone());
    queue.lock().unwrap().push(LogOverlayEntry::new(LogLevel::Info, "hello".to_string(), 1000));
    queue.lock().unwrap().push(LogOverlayEntry::new(LogLevel::Error, "boom".to_string(), 1000));
    assert_eq!(overlay.num_entries(), 2);
    overlay.collect();
    assert_eq!(overlay.num_entries(), 0);
    assert_eq!(overlay.entries().len(), 2);
    overlay.prune(2999);
    assert_eq!(overlay.entries().len(), 2);
    overlay.prune(3000);
    let texts: Vec<&str> = overlay.entries().iter().map(|e| e.text()).collect();
    assert_eq!(texts, ["boom"]);
    assert_eq!(overlay.entries()[0].level(), LogLevel::Error);
    overlay.prune(0);
    assert_eq!(overlay.entries().len(), 1);
    overlay.prune(6000);
    assert!(overlay.entries().is_empty());
}

#[test]
fn appended_records_follow_those_shown() {
    let queue = Arc::new(Mutex::new(Vec::new()));
    let mut overlay = LogOverlay::new(queue.clone());
    overlay.append_queued(vec![LogOverlayEntry::new(LogLevel::Warn, "a".to_string(), 5)]);
    overlay.append_queued(vec![
        LogOverlayEntry::new(LogLevel::Info, "b".to_string(), 6),
        LogOverlayEntry::new(LogLevel::Debug, "c".to_string(), 7),
    ]);
    overlay.append_queued(Vec::new());
    let texts: Vec<&str> = overlay.entries().iter().map(|e| e.text()).collect();
    assert_eq!(texts, ["a", "b", "c"]);
    assert_eq!(overlay.num_entries(), 0);
}


#[test]
fn held_queue_is_left_for_later() {
    let queue = Arc::new(Mutex::new(vec![LogOverlayEntry::new(LogLevel::Info, "later".to_string(), 1)]));
    let mut overlay = LogOverlay::new(queue.clone());
    {
        let _guard = queue.lock().unwrap();
        assert_eq!(overlay.num_entries(), 0);
        overlay.collect();
        assert!(overlay.entries().is_empty());
    }
    assert_eq!(overlay.num_entries(), 1);
    overlay.collect();
    assert_eq!(overlay.entries()[0].text(), "later");
}
