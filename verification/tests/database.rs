use biubo_waf::database::Database;
use serde_json::Value;

#[test]
fn database_read_gives_back_last_write() {
    let mut db = Database::new();
    assert!(db.is_empty());
    assert!(!db.needs_flush());
    db.set("security", Value::from("first"));
    db.set("settings", Value::from(7));
    db.set("security", Value::from("second"));
    assert_eq!(db.get("security"), Some(&Value::from("second")));
    assert_eq!(db.get("settings"), Some(&Value::from(7)));
    assert_eq!(db.get("missing"), None);
    assert_eq!(db.len(), 2);
    let mut keys = db.keys();
    keys.sort();
    assert_eq!(keys, vec!["security".to_string(), "settings".to_string()]);
    assert!(db.contains_key("settings"));
}

#[test]
fn database_delete_and_dirty_flag() {
    let mut db = Database::new();
    assert!(db.flush_payload().is_none());
    db.set("a", Value::Bool(true));
    assert!(db.needs_flush());
    assert!(matches!(db.flush_payload(), Some(Ok(_))));
    db.mark_flushed();
    assert!(!db.needs_flush());
    assert!(!db.delete("b"));
    assert!(!db.needs_flush());
    assert!(db.delete("a"));
    assert!(db.needs_flush());
    assert!(db.get("a").is_none());
    assert_eq!(db.len(), 0);
}

#[test]
fn database_msgpack_round_trip() {
    let mut db = Database::new();
    db.set("count", Value::from(3));
    db.set("name", Value::from("waf"));
    let bytes = match db.flush_payload() {
        Some(Ok(b)) => b,
        _ => panic!("dirty store encodes"),
    };
    let back = Database::from_msgpack(&bytes);
    assert!(!back.needs_flush());
    assert_eq!(back.len(), 2);
    assert_eq!(back.get("count"), Some(&Value::from(3)));
    assert_eq!(back.get("name"), Some(&Value::from("waf")));
    assert!(Database::from_msgpack(&[]).is_empty());
    assert!(Database::from_msgpack(&[0xc1]).is_empty());
}
