use biubo_waf::log_gc::{gc_action, is_expired_log, log_file_date, str_less, LogGcAction};

#[test]
fn log_gc_dates() {
    assert_eq!(log_file_date("2024-01-05.msgpack"), Some("2024-01-05".to_string()));
    assert_eq!(log_file_date("2024-01-05.json"), None);
    assert_eq!(log_file_date(".msgpack"), Some(String::new()));
    assert_eq!(log_file_date("a.msgpack.msgpack"), Some("a".to_string()));
}

#[test]
fn log_gc_expiry() {
    assert!(is_expired_log("2024-01-05.msgpack", "2024-01-06"));
    assert!(!is_expired_log("2024-01-06.msgpack", "2024-01-06"));
    assert!(!is_expired_log("2024-01-07.msgpack", "2024-01-06"));
    assert!(!is_expired_log("notes.txt", "2099-01-01"));
    assert!(str_less("2023-12-31", "2024-01-01"));
    assert!(!str_less("b", "a"));
    assert!(str_less("a", "ab"));
}

#[test]
fn log_gc_actions() {
    assert_eq!(gc_action(10, 0), LogGcAction::Delete);
    assert_eq!(gc_action(10, 4), LogGcAction::Prune);
    assert_eq!(gc_action(10, 10), LogGcAction::Keep);
    assert_eq!(gc_action(0, 0), LogGcAction::Delete);
}
