use biubo_waf::auth::{
    authenticate, check_api_key_header, constant_time_compare, find_api_key, mask_sensitive_value, AuthOutcome,
    PermissionError, RequireAuth,
};
use biubo_waf::models::{ClusterRole, WafApiKey};

fn key(k: &str, perms: &[&str], active: bool) -> WafApiKey {
    WafApiKey {
        id: k.to_string(),
        key: k.to_string(),
        name: k.to_string(),
        permissions: perms.iter().map(|p| p.to_string()).collect(),
        rate_limit: 1,
        created_at: 0,
        last_used_at: None,
        is_active: active,
    }
}

#[test]
fn auth_constant_time_compare() {
    assert!(constant_time_compare(b"abc", b"abc"));
    assert!(!constant_time_compare(b"abc", b"abd"));
    assert!(!constant_time_compare(b"abc", b"abcd"));
    assert!(constant_time_compare(b"", b""));
}

#[test]
fn auth_layers() {
    let keys = vec![key("on", &["read"], true), key("off", &["*"], false)];
    assert_eq!(authenticate(&keys, None), AuthOutcome::Missing);
    assert_eq!(authenticate(&keys, Some("nope")), AuthOutcome::Invalid);
    assert_eq!(authenticate(&keys, Some("off")), AuthOutcome::Inactive);
    assert_eq!(authenticate(&keys, Some("on")), AuthOutcome::Accepted);
    assert_eq!(find_api_key(&keys, "off"), Some(1));
    assert!(check_api_key_header("dash", &keys, Some("dash")));
    assert!(check_api_key_header("", &keys, Some("on")));
    assert!(!check_api_key_header("", &keys, Some("")));
    assert!(!check_api_key_header("dash", &keys, Some("off")));
    assert!(!check_api_key_header("dash", &keys, None));
}

#[test]
fn auth_require_permission() {
    let keys = vec![key("k", &["read"], true)];
    let caller = RequireAuth { api_key: "k".to_string() };
    assert_eq!(caller.require_permission("read", &keys), Ok(()));
    assert_eq!(caller.require_permission("block", &keys), Err(PermissionError::InsufficientPermissions));
    let stranger = RequireAuth { api_key: "x".to_string() };
    assert_eq!(stranger.require_permission("read", &keys), Err(PermissionError::InvalidApiKey));
    assert!(key("w", &["*"], true).has_permission("anything"));
    assert_eq!(ClusterRole::Secondary.to_string(), "secondary");
}

#[test]
fn auth_masking() {
    assert_eq!(mask_sensitive_value("", 4), "");
    assert_eq!(mask_sensitive_value("abc", 4), "***");
    assert_eq!(mask_sensitive_value("abcd", 4), "***");
    assert_eq!(mask_sensitive_value("sk-1234567", 4), "sk-1***");
}
