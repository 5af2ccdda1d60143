use biubo_waf::threat_signals::{has_attack_progression, has_encoded_payload, is_suspicious_ua, paths_similar, RequestRecord};

#[test]
fn test_has_encoded_payload_with_url_encoding() {
    assert!(has_encoded_payload("test%20encoded%2Fpath"));
}

#[test]
fn test_has_encoded_payload_with_hex_encoding() {
    assert!(has_encoded_payload("test\\x41\\x42"));
}

#[test]
fn test_has_encoded_payload_with_unicode() {
    assert!(has_encoded_payload("test\\u0041\\u0042"));
}

#[test]
fn test_has_encoded_payload_with_html_entity() {
    assert!(has_encoded_payload("test&#60;script&#62;"));
}

#[test]
fn test_has_encoded_payload_with_base64() {
    assert!(has_encoded_payload("base64,SGVsbG8gV29ybGQhIFRoaXMgaXMgYSBsb25nIHN0cmluZw=="));
}

#[test]
fn test_no_encoded_payload() {
    assert!(!has_encoded_payload("Hello World"));
    assert!(!has_encoded_payload(""));
}

fn rec(ts: u64, url: &str, status: u16, suspicious: bool) -> RequestRecord {
    RequestRecord { timestamp: ts, url: url.to_string(), method: "GET".to_string(), status_code: status, is_suspicious: suspicious }
}

#[test]
fn test_has_attack_progression_with_suspicious_requests() {
    let history = vec![rec(1, "/admin", 403, true), rec(2, "/admin/config", 403, true), rec(3, "/admin/users", 403, true)];
    assert!(has_attack_progression(&history));
}

#[test]
fn test_no_attack_progression_with_normal_requests() {
    let history = vec![rec(1, "/index.html", 200, false), rec(2, "/about", 200, false), rec(3, "/contact", 200, false)];
    assert!(!has_attack_progression(&history));
}

#[test]
fn signals_short_history_has_no_progression() {
    let history = vec![rec(1, "/admin", 403, true), rec(2, "/admin/config", 403, true)];
    assert!(!has_attack_progression(&history));
}

#[test]
fn signals_encoded_ratio_threshold() {
    // one escape among very long text stays under one percent
    let long = format!("{}%41", "a".repeat(400));
    assert!(!has_encoded_payload(&long));
    let short = format!("{}%41", "a".repeat(50));
    assert!(has_encoded_payload(&short));
}

#[test]
fn signals_suspicious_user_agents() {
    assert!(is_suspicious_ua("sqlmap/1.5"));
    assert!(!is_suspicious_ua(""));
    assert!(is_suspicious_ua("Python-Requests/2.31"));
    assert!(!is_suspicious_ua("Mozilla/5.0 (X11; Linux x86_64)"));
}

#[test]
fn signals_similar_paths() {
    assert!(paths_similar("/api/v1/users/1", "/api/v1/users/2"));
    assert!(!paths_similar("/admin/a", "/admin/b"));
    assert!(!paths_similar("/x", "/completely/different"));
}
