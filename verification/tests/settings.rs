use biubo_waf::settings::{generate_challenge_secret, generate_random_password, parse_comma_list, EnvVars, PersistedConfig, Settings};
use biubo_waf::storage::StorageDriverType;

fn defaults() -> Settings {
    Settings::defaults("/srv/waf", "pw".to_string(), "secret".to_string())
}

fn no_env() -> EnvVars {
    EnvVars {
        waf_port: None, waf_dashboard_password: None, waf_cors_origins: None, waf_api_key: None,
        waf_llm_model: None, waf_llm_base_url: None, waf_session_timeout: None, waf_cache_ttl: None,
        waf_session_gc_interval: None, waf_cache_gc_interval: None, waf_trust_headers: None,
        waf_ip_header_order: None, waf_rate_limit: None, waf_ban_threshold: None, waf_ban_duration: None,
        waf_rate_gc_interval: None, waf_challenge_secret: None, waf_challenge_expire: None,
        waf_max_upload_size: None, waf_dashboard_path: None, waf_log_auto_delete: None,
        waf_log_retention_days: None, waf_log_retain_list: None, storage_driver: None,
        storage_redis_url: None, storage_postgres_url: None, ssl_enabled: None, ssl_domains: None,
        ssl_acme_email: None, ssl_cert_dir: None, ssl_port: None,
    }
}

#[test]
fn settings_defaults() {
    let s = defaults();
    assert_eq!(s.waf_port, 8080);
    assert_eq!(s.rate_limit_per_sec, 15);
    assert_eq!(s.upload_max_size, 10 * 1024 * 1024);
    assert_eq!(s.get_ip_from_headers.order, vec!["CF-Connecting-IP", "X-Real-IP", "X-Forwarded-For"]);
    assert_eq!(s.static_extensions.len(), 11);
    assert_eq!(s.upload_allowed_extensions.len(), 30);
    assert_eq!(s.db_root, "/srv/waf/data");
    assert_eq!(s.ssl_cert_dir, "/srv/waf/ssl");
    assert!(!s.is_initialized());
    assert_eq!(s.validate(), Ok(()));
}

#[test]
fn settings_validation_errors() {
    let mut s = defaults();
    s.waf_port = 0;
    assert_eq!(s.validate(), Err("WAF_PORT cannot be 0".to_string()));
    let mut s = defaults();
    s.challenge_secret = String::new();
    assert_eq!(s.validate(), Err("CHALLENGE_SECRET cannot be empty".to_string()));
    let mut s = defaults();
    s.proxy_map = vec![("a.com".to_string(), "http://x".to_string()), ("b.com".to_string(), "ftp://y".to_string())];
    assert_eq!(s.validate(), Err("PROXY_MAP[b.com] target must start with http:// or https://".to_string()));
    s.proxy_map = vec![("c.com".to_string(), String::new())];
    assert_eq!(s.validate(), Err("PROXY_MAP[c.com] has empty target URL".to_string()));
    let mut s = defaults();
    s.ssl_enabled = true;
    assert_eq!(s.validate(), Err("SSL_DOMAINS cannot be empty when SSL is enabled".to_string()));
    s.ssl_domains = vec!["a.com".to_string()];
    assert_eq!(s.validate(), Err("SSL_ACME_EMAIL cannot be empty when SSL is enabled".to_string()));
}

#[test]
fn settings_env_overrides() {
    let mut s = defaults();
    let mut e = no_env();
    e.waf_port = Some("8080".to_string());
    e.ssl_port = Some("70000".to_string());
    e.waf_session_timeout = Some("-5".to_string());
    e.waf_cache_ttl = Some("abc".to_string());
    e.waf_trust_headers = Some("FALSE".to_string());
    e.waf_log_auto_delete = Some("True".to_string());
    e.waf_cors_origins = Some("[\"https://a\", \"https://b\"]".to_string());
    e.waf_ip_header_order = Some("not json".to_string());
    e.ssl_domains = Some(" a.com, ,b.com ,".to_string());
    e.waf_api_key = Some("key".to_string());
    e.storage_driver = Some("MsgPack".to_string());
    s.apply_env_vars(e);
    assert_eq!(s.waf_port, 8080);
    assert_eq!(s.ssl_port, 443);
    assert_eq!(s.session_timeout, -5);
    assert_eq!(s.cache_ttl, 3600);
    assert!(!s.get_ip_from_headers.state);
    assert!(s.log_auto_delete);
    assert_eq!(s.cors_origins, vec!["https://a", "https://b"]);
    assert_eq!(s.get_ip_from_headers.order.len(), 3);
    assert_eq!(s.ssl_domains, vec!["a.com", "b.com"]);
    assert_eq!(s.api_key, "key");
    assert_eq!(s.storage_driver, StorageDriverType::MsgPack);
    assert_eq!(s.validate(), Err("SESSION_TIMEOUT must be positive".to_string()));
}

#[test]
fn settings_persisted_overrides() {
    let mut s = defaults();
    s.apply_persisted(PersistedConfig {
        waf_port: Some(9000), dashboard_password: None, cors_origins: None,
        proxy_map: Some(vec![("example.com".to_string(), "http://127.0.0.1:8000".to_string())]),
        dashboard_path: Some("/admin".to_string()), api_key: None, llm_model: None, llm_base_url: None,
        storage_driver: None, redis_url: None, postgres_url: None, ssl_enabled: None, ssl_domains: None,
        ssl_acme_email: None, ssl_cert_dir: None, ssl_port: None,
    });
    assert_eq!(s.waf_port, 9000);
    assert_eq!(s.dashboard_password, "pw");
    assert_eq!(s.dashboard_path, "/admin");
    assert!(s.is_initialized());
    assert_eq!(s.validate(), Ok(()));
}

#[test]
fn settings_generated_secrets() {
    let a = generate_challenge_secret();
    let b = generate_challenge_secret();
    assert_eq!(a.len(), 64);
    assert!(a.chars().all(|c| c.is_ascii_hexdigit()));
    assert_ne!(a, b);
    assert_eq!(generate_random_password().len(), 16);
    assert_eq!(parse_comma_list("x,,y"), vec!["x", "y"]);
}
