use biubo_waf::errors::WafError;
use biubo_waf::storage::{
    ban_state, expire_for, is_temporary_ban, normalize_path, plan_driver, upsert_log, BanEntry, BanState,
    DriverPlan, ExpireValue, MsgPackDriver, StorageConfig, StorageDriverError, StorageDriverType,
};

const MIN: u64 = 60_000_000_000;

#[test]
fn storage_default_config() {
    let c = StorageConfig::default();
    assert_eq!(c.driver_type, StorageDriverType::MsgPack);
    assert_eq!(c.flush_interval, Some(5));
    assert!(c.msgpack_path.is_none());
}

#[test]
fn storage_paths_get_msgpack_extension() {
    assert_eq!(normalize_path("data/RAM.msgpack"), "data/RAM.msgpack");
    assert_eq!(normalize_path("data/RAM"), "data/RAM.msgpack");
    assert_eq!(normalize_path("data/RAM.json"), "data/RAM.msgpack");
    let d = MsgPackDriver::new("db", 7);
    assert_eq!(d.path, "db.msgpack");
    assert_eq!(d.flush_interval_secs, 7);
    assert_eq!(d.max_backup_count, 5);
}

#[test]
fn storage_driver_plans() {
    match plan_driver(StorageConfig::default()) {
        Ok(DriverPlan::MsgPack(d)) => {
            assert_eq!(d.path, "data.msgpack");
            assert_eq!(d.flush_interval_secs, 5);
        }
        _ => panic!("expected a msgpack store"),
    }
    let redis = StorageConfig { driver_type: StorageDriverType::Redis, redis_url: None, postgres_url: None, msgpack_path: None, flush_interval: None };
    match plan_driver(redis) {
        Err(e) => assert_eq!(e.message(), "Connection error: Redis URL is required for Redis driver"),
        _ => panic!("expected an error"),
    }
    let pg = StorageConfig { driver_type: StorageDriverType::PostgreSQL, redis_url: None, postgres_url: Some("postgres://x".to_string()), msgpack_path: None, flush_interval: None };
    assert!(matches!(plan_driver(pg), Ok(DriverPlan::PostgreSQL(u)) if u == "postgres://x"));
}

#[test]
fn storage_error_messages() {
    assert_eq!(StorageDriverError::OperationError("x".to_string()).message(), "Operation error: x");
    let io = std::io::Error::new(std::io::ErrorKind::Other, "disk");
    assert_eq!(StorageDriverError::from(io).message(), "IO error: disk");
    assert_eq!(WafError::ConfigError("bad".to_string()).message(), "Configuration error: bad");
    assert_eq!(WafError::Generic("g".to_string()).message(), "Error: g");
    let io = std::io::Error::new(std::io::ErrorKind::Other, "eof");
    assert_eq!(WafError::from(io).message(), "I/O error: eof");
}

fn entry(expire: ExpireValue, added: Option<&str>) -> BanEntry {
    BanEntry { expire, added_at: added.map(|s| s.to_string()) }
}

#[test]
fn storage_ban_lifetimes() {
    let t0: u64 = 1_700_000_000 * 1_000_000_000;
    let added = "2023-11-14T22:13:20Z"; // t0
    assert_eq!(ban_state(None, t0), BanState::NotBanned);
    assert_eq!(ban_state(Some(&entry(ExpireValue::Null, Some(added))), t0 + 1_000 * MIN), BanState::Banned);
    assert_eq!(ban_state(Some(&entry(ExpireValue::Absent, None)), t0), BanState::Banned);
    assert_eq!(ban_state(Some(&entry(ExpireValue::Flag(true), Some(added))), t0 + MIN), BanState::Banned);
    assert_eq!(ban_state(Some(&entry(ExpireValue::Minutes(10), Some(added))), t0 + 10 * MIN - 1), BanState::Banned);
    assert_eq!(ban_state(Some(&entry(ExpireValue::Minutes(10), Some(added))), t0 + 10 * MIN), BanState::Expired);
    assert_eq!(ban_state(Some(&entry(ExpireValue::Minutes(10), Some("not a time"))), t0 + 100 * MIN), BanState::Banned);
    assert_eq!(ban_state(Some(&entry(ExpireValue::Minutes(10), None)), t0 + 100 * MIN), BanState::Banned);
    assert!(is_temporary_ban(Some(&entry(ExpireValue::Flag(true), None))));
    assert!(!is_temporary_ban(Some(&entry(ExpireValue::Minutes(1), None))));
    assert_eq!(expire_for(Some(30)), ExpireValue::Minutes(30));
    assert_eq!(expire_for(None), ExpireValue::Null);
}

#[test]
fn storage_log_upsert() {
    let mut logs: Vec<(Option<String>, u32)> = Vec::new();
    upsert_log(&mut logs, Some("r1".to_string()), 1);
    upsert_log(&mut logs, None, 2);
    upsert_log(&mut logs, Some("r2".to_string()), 3);
    upsert_log(&mut logs, Some("r1".to_string()), 4);
    upsert_log(&mut logs, None, 5);
    let values: Vec<u32> = logs.iter().map(|e| e.1).collect();
    assert_eq!(values, vec![4, 2, 3, 5]);
}
