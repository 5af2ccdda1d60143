use biubo_waf::behavior::BehaviorProfilingConfig;
use biubo_waf::cluster::ClusterStatus;
use biubo_waf::queue::{default_worker_count, dispatch_order};
use biubo_waf::reputation::{reverse_ip, ReputationAggregatorConfig};
use biubo_waf::text::{parse_i64, parse_u16, parse_u64};
use biubo_waf::waf_engine::{cache_key, html_escape_for_prompt, parse_body, screen_request_size, DetectionResult};

fn chars(s: &str) -> Vec<char> {
    s.chars().collect()
}

#[test]
fn misc_worker_dispatch() {
    assert_eq!(dispatch_order(5, 3), vec![2, 0, 1]);
    assert_eq!(dispatch_order(0, 4), vec![0, 1, 2, 3]);
    assert!(dispatch_order(7, 0).is_empty());
    assert_eq!(default_worker_count(Some(8)), 6);
    assert_eq!(default_worker_count(Some(2)), 1);
    assert_eq!(default_worker_count(None), 2);
}

#[test]
fn misc_defaults() {
    let b = BehaviorProfilingConfig::default();
    assert!(b.enabled);
    assert_eq!(b.window_seconds, 300);
    assert_eq!(b.max_profiles, 100000);
    let r = ReputationAggregatorConfig::default();
    assert_eq!(r.max_cache_size, 100_000);
    assert_eq!(r.clean_ttl_secs, 3600);
    assert_eq!(r.flagged_ttl_secs, 300);
    assert_eq!(ClusterStatus::Degraded.to_string(), "degraded");
}

#[test]
fn misc_integer_parsing() {
    assert_eq!(parse_i64(&chars("-42")), Some(-42));
    assert_eq!(parse_i64(&chars("+7")), Some(7));
    assert_eq!(parse_i64(&chars("-9223372036854775808")), Some(i64::MIN));
    assert_eq!(parse_i64(&chars("9223372036854775808")), None);
    assert_eq!(parse_i64(&chars("-+1")), None);
    assert_eq!(parse_i64(&chars("-")), None);
    assert_eq!(parse_u16(&chars("65535")), Some(65535));
    assert_eq!(parse_u16(&chars("65536")), None);
    assert_eq!(parse_u64(&chars("+")), None);
}

#[test]
fn misc_engine_helpers() {
    assert_eq!(DetectionResult::normal().detection_type, "normal");
    assert_eq!(DetectionResult::error().detection_type, "error");
    let k = cache_key("/a", "b");
    assert!(k.starts_with("waf:"));
    assert_eq!(k.len(), 4 + 16);
    assert_eq!(k, cache_key("/a", "b"));
    assert_ne!(k, cache_key("/a", "c"));
    assert_eq!(html_escape_for_prompt("<a href=\"x\">&'"), "&lt;a href=&quot;x&quot;&gt;&amp;&#x27;");
    let long_url = "a".repeat(2001);
    let r = screen_request_size(&long_url, &vec![], &vec![], 0, "").unwrap();
    assert_eq!(r.attack_types, vec!["buffer_overflow"]);
    assert!(screen_request_size("/x", &vec![], &vec![], 200_000, "multipart/form-data").is_none());
    assert!(screen_request_size("/x", &vec![], &vec![], 200_000, "text/plain").is_some());
}

#[test]
fn reverse_ip_reverses_labels() {
    assert_eq!(reverse_ip("1.2.3.4"), "4.3.2.1");
    assert_eq!(reverse_ip("10.0.0.1"), "1.0.0.10");
    assert_eq!(reverse_ip("localhost"), "localhost");
    assert_eq!(reverse_ip("a..b"), "b..a");
    assert_eq!(reverse_ip(""), "");
}

#[test]
fn parse_body_reads_a_bounded_prefix() {
    assert_eq!(parse_body(b"", "application/json"), "{}");
    assert_eq!(parse_body(b"", "text/plain"), "");
    assert_eq!(parse_body(b"a=1&b=2", "application/x-www-form-urlencoded"), "a=1&b=2");
    assert_eq!(parse_body(b"{\"x\":1}", "application/json; charset=utf-8"), "{\"x\":1}");
    assert_eq!(parse_body(&[0x61, 0xff, 0x62], ""), "a\u{fffd}b");
    let big = vec![b'z'; 70000];
    assert_eq!(parse_body(&big, "text/plain").len(), 65536);
}

#[test]
fn test_spamhaus_ip_reversal() {
    let ip = "192.168.1.100";
    let reversed = reverse_ip(ip);
    assert_eq!(reversed, "100.1.168.192");
}
