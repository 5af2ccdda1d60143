use biubo_waf::analytics::{get_blocked_requests, get_top_threats, get_total_requests, CounterMap, SecurityStats, TrafficStats};
use biubo_waf::auth::check_permission;
use biubo_waf::models::WafApiKey;

#[test]
fn test_threat_multiplier_sql_injection() {
    let behavior: f64 = 50.0;
    let adjusted: f64 = (behavior * 1.5).min(100.0);
    assert_eq!(adjusted, 75.0);
}

#[test]
fn test_threat_multiplier_ddos() {
    let behavior: f64 = 50.0;
    let adjusted: f64 = (behavior * 1.8).min(100.0);
    assert_eq!(adjusted, 90.0);
}

#[test]
fn test_threat_multiplier_capped_at_100() {
    let behavior: f64 = 80.0;
    let adjusted = (behavior * 1.8).min(100.0);
    assert_eq!(adjusted, 100.0);
}

#[test]
fn test_recommendation_action_thresholds() {
    let score_low = 40.0;
    let score_medium = 60.0;
    let score_high = 85.0;

    let action_low = if score_low > 80.0 {
        "block"
    } else if score_low > 50.0 {
        "challenge"
    } else {
        "allow"
    };
    assert_eq!(action_low, "allow");

    let action_medium = if score_medium > 80.0 {
        "block"
    } else if score_medium > 50.0 {
        "challenge"
    } else {
        "allow"
    };
    assert_eq!(action_medium, "challenge");

    let action_high = if score_high > 80.0 {
        "block"
    } else if score_high > 50.0 {
        "challenge"
    } else {
        "allow"
    };
    assert_eq!(action_high, "block");
}

fn key(id: &str, key: &str, perms: &[&str], active: bool) -> WafApiKey {
    WafApiKey {
        id: id.to_string(),
        key: key.to_string(),
        name: id.to_string(),
        permissions: perms.iter().map(|p| p.to_string()).collect(),
        rate_limit: 1000,
        created_at: 0,
        last_used_at: None,
        is_active: active,
    }
}

fn test_keys() -> Vec<WafApiKey> {
    vec![
        key("test-1", "test-api-key-read", &["read"], true),
        key("test-2", "test-api-key-write", &["read", "write"], true),
        key("test-3", "test-api-key-block", &["read", "write", "block"], true),
        key("test-4", "test-api-key-stats", &["read", "stats"], true),
        key("test-5", "test-api-key-inactive", &["read"], false),
        key("test-6", "test-api-key-wildcard", &["*"], true),
    ]
}

#[test]
fn test_check_permission_with_valid_read_key() {
    let keys = test_keys();
    assert!(check_permission("test-api-key-read", "read", &keys));
    assert!(!check_permission("test-api-key-read", "write", &keys));
    assert!(!check_permission("test-api-key-read", "block", &keys));
}

#[test]
fn test_check_permission_with_write_key() {
    let keys = test_keys();
    assert!(check_permission("test-api-key-write", "read", &keys));
    assert!(check_permission("test-api-key-write", "write", &keys));
    assert!(!check_permission("test-api-key-write", "block", &keys));
}

#[test]
fn test_check_permission_with_block_key() {
    let keys = test_keys();
    assert!(check_permission("test-api-key-block", "read", &keys));
    assert!(check_permission("test-api-key-block", "write", &keys));
    assert!(check_permission("test-api-key-block", "block", &keys));
}

#[test]
fn test_check_permission_with_stats_key() {
    let keys = test_keys();
    assert!(check_permission("test-api-key-stats", "read", &keys));
    assert!(check_permission("test-api-key-stats", "stats", &keys));
    assert!(!check_permission("test-api-key-stats", "block", &keys));
}

#[test]
fn test_check_permission_with_wildcard() {
    let keys = test_keys();
    assert!(check_permission("test-api-key-wildcard", "read", &keys));
    assert!(check_permission("test-api-key-wildcard", "write", &keys));
    assert!(check_permission("test-api-key-wildcard", "block", &keys));
    assert!(check_permission("test-api-key-wildcard", "stats", &keys));
}

#[test]
fn test_check_permission_invalid_key() {
    let keys = test_keys();
    assert!(!check_permission("invalid-key", "read", &keys));
    assert!(!check_permission("", "read", &keys));
}

fn counters(pairs: &[(&str, u64)]) -> CounterMap {
    CounterMap { entries: pairs.iter().map(|(k, v)| (k.to_string(), *v)).collect() }
}

fn security(blocked: u64, ips: &[(&str, u64)]) -> SecurityStats {
    SecurityStats {
        blocked_requests: blocked,
        attack_types: CounterMap::new(),
        top_attack_ips: counters(ips),
        top_target_urls: CounterMap::new(),
        attackers_by_country: None,
    }
}

#[test]
fn stats_totals_default_to_zero() {
    assert_eq!(get_total_requests(None), 0);
    assert_eq!(get_blocked_requests(None), 0);
    let t = TrafficStats { visitors_total: 12, engagement_total: None, trending_urls: CounterMap::new(), clients: None };
    assert_eq!(get_total_requests(Some(&t)), 12);
    assert_eq!(get_blocked_requests(Some(&security(5, &[]))), 5);
    assert!(get_top_threats(None).is_empty());
}

#[test]
fn stats_top_threats_sorted_stable_and_capped() {
    let ips: Vec<(String, u64)> = (0..12).map(|i| (format!("10.0.0.{}", i), (i % 4) as u64)).collect();
    let refs: Vec<(&str, u64)> = ips.iter().map(|(k, v)| (k.as_str(), *v)).collect();
    let top = get_top_threats(Some(&security(0, &refs)));
    assert_eq!(top.len(), 10);
    let got: Vec<(String, u64)> = top.iter().map(|t| (t.ip.clone(), t.count)).collect();
    assert_eq!(got[0], ("10.0.0.3".to_string(), 3));
    assert_eq!(got[1], ("10.0.0.7".to_string(), 3));
    assert_eq!(got[2], ("10.0.0.11".to_string(), 3));
    assert_eq!(got[3], ("10.0.0.2".to_string(), 2));
    assert!(got.windows(2).all(|w| w[0].1 >= w[1].1));
    assert!(top.iter().all(|t| t.threat_type == "multiple"));
}
