use biubo_waf::config_sync::{changes_settings, ConfigSync, ConfigUpdate, ConfigUpdateAck};
use biubo_waf::settings::Settings;

fn settings() -> Settings {
    Settings::defaults("/tmp/biubo", "pw".to_string(), "secret".to_string())
}

fn update(id: &str, kind: &str, payload: &str) -> ConfigUpdate {
    ConfigUpdate {
        id: id.to_string(),
        update_type: kind.to_string(),
        payload: payload.to_string(),
        timestamp: 1_700_000_000,
        source_node_id: "primary-1".to_string(),
    }
}

#[test]
fn test_config_update_ack_creation() {
    let ack = ConfigUpdateAck::new("update-1".to_string(), "node-1".to_string());
    assert_eq!(ack.update_id, "update-1");
    assert_eq!(ack.node_id, "node-1");
    assert!(!ack.acknowledged);
    assert!(ack.acknowledged_at.is_none());
    assert_eq!(ack.retry_count, 0);
}

#[test]
fn test_config_sync_initialization() {
    let sync = ConfigSync::new("node-x".to_string());
    assert_eq!(sync.pending_acks.len(), 0);
    assert_eq!(sync.get_pending_ack_count(), 0);
    assert_eq!(sync.get_acknowledged_count(), 0);
}

#[test]
fn test_receive_config_update_rules() {
    let mut sync = ConfigSync::new("node-x".to_string());
    let mut s = settings();
    let result = sync.receive_config_update(&update("update-1", "rules", r#"{"rules": [{"id": 1, "pattern": ".*"}]}"#), &mut s, 5);
    assert!(result.is_ok());
    assert_eq!(result.unwrap().status, "success");
}

#[test]
fn test_receive_config_update_settings() {
    let mut sync = ConfigSync::new("node-x".to_string());
    let mut s = settings();
    let payload = r#"{"waf_port": 8080, "proxy_map": {"example.com": "http://backend:80"}, "dashboard_path": "/admin"}"#;
    let result = sync.receive_config_update(&update("update-2", "settings", payload), &mut s, 5);
    assert!(result.is_ok());
    assert_eq!(s.waf_port, 8080);
    assert_eq!(s.proxy_map, vec![("example.com".to_string(), "http://backend:80".to_string())]);
    assert_eq!(s.dashboard_path, "/admin");
    assert!(changes_settings("settings"));
    assert!(!changes_settings("rules"));
}

#[test]
fn test_receive_config_update_invalid_type() {
    let mut sync = ConfigSync::new("node-x".to_string());
    let mut s = settings();
    let result = sync.receive_config_update(&update("update-1", "unknown_type", "{}"), &mut s, 5);
    assert!(result.is_err());
    assert_eq!(result.unwrap_err(), "Failed to apply config update: Unknown config update type: unknown_type");
    assert_eq!(sync.get_pending_ack_count(), 1);
}

#[test]
fn test_send_ack_updates_pending_acks() {
    let mut sync = ConfigSync::new("node-x".to_string());
    sync.send_ack("update-1".to_string(), "node-1".to_string(), false, 3);
    sync.send_ack("update-1".to_string(), "node-1".to_string(), true, 4);
    let entry = sync.pending_acks.get("update-1").unwrap();
    assert!(entry.acknowledged);
    assert_eq!(entry.acknowledged_at, Some(4));
}

#[test]
fn test_pending_and_acked_counts() {
    let mut sync = ConfigSync::new("node-x".to_string());
    sync.send_ack("update-1".to_string(), "node-1".to_string(), false, 1);
    sync.send_ack("update-2".to_string(), "node-2".to_string(), true, 2);
    assert_eq!(sync.get_pending_ack_count(), 1);
    assert_eq!(sync.get_acknowledged_count(), 1);
}

#[test]
fn config_sync_rejects_bad_settings_json() {
    let mut sync = ConfigSync::new("node-x".to_string());
    let mut s = settings();
    let before_port = s.waf_port;
    let result = sync.receive_config_update(&update("u", "settings", "{not json"), &mut s, 5);
    let err = result.unwrap_err();
    assert!(err.starts_with("Failed to apply config update: Invalid settings JSON: "));
    assert_eq!(s.waf_port, before_port);
}

#[test]
fn config_sync_port_is_cut_to_sixteen_bits_and_non_strings_skipped() {
    let mut sync = ConfigSync::new("node-x".to_string());
    let mut s = settings();
    let payload = r#"{"waf_port": 65537, "proxy_map": {"a.com": "http://a", "b.com": 3}}"#;
    assert!(sync.receive_config_update(&update("u", "settings", payload), &mut s, 5).is_ok());
    assert_eq!(s.waf_port, 1);
    assert_eq!(s.proxy_map, vec![("a.com".to_string(), "http://a".to_string())]);
}
