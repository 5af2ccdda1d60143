use biubo_waf::analytics::{count_session, country_or_unknown, extract_path, CounterMap, SecurityStats, SessionSummary, TrafficStats};

fn summary(ip: &str, path: &str, types: &[&str]) -> SessionSummary {
    SessionSummary {
        ip: ip.to_string(),
        is_hacker: true,
        url_path: path.to_string(),
        country: "DE".to_string(),
        attack_types: types.iter().map(|t| t.to_string()).collect(),
        duration_sec: 30,
        browser: "Firefox".to_string(),
        os: "Linux".to_string(),
        device: "Desktop".to_string(),
    }
}

#[test]
fn analytics_counter_map_increments() {
    let mut m = CounterMap::new();
    m.inc("a");
    m.inc("b");
    m.inc("a");
    assert_eq!(m.get("a"), 2);
    assert_eq!(m.get("b"), 1);
    assert_eq!(m.get("c"), 0);
    assert_eq!(m.entries.len(), 2);
}

#[test]
fn analytics_attack_recording() {
    let mut s = SecurityStats {
        blocked_requests: 4,
        attack_types: CounterMap::new(),
        top_attack_ips: CounterMap::new(),
        top_target_urls: CounterMap::new(),
        attackers_by_country: Some(CounterMap::new()),
    };
    s.record_attack(&summary("1.1.1.1", "/login", &["xss", "sqli", "xss"]));
    s.record_attack(&summary("1.1.1.1", "/admin", &[]));
    assert_eq!(s.blocked_requests, 6);
    assert_eq!(s.attack_types.get("xss"), 2);
    assert_eq!(s.attack_types.get("sqli"), 1);
    assert_eq!(s.top_attack_ips.get("1.1.1.1"), 2);
    assert_eq!(s.top_target_urls.get("/admin"), 1);
    assert_eq!(s.attackers_by_country.as_ref().unwrap().get("DE"), 2);
}

#[test]
fn analytics_visit_recording() {
    let mut t = TrafficStats { visitors_total: 1, engagement_total: Some(9), trending_urls: CounterMap::new(), clients: None };
    t.record_visit(&summary("2.2.2.2", "/", &[]));
    assert_eq!(t.visitors_total, 2);
    assert_eq!(t.engagement_total, Some(10));
    assert_eq!(t.trending_urls.get("/"), 1);
    assert!(t.clients.is_none());
}

#[test]
fn analytics_path_and_country() {
    assert_eq!(extract_path("https://example.com/a/b?x=1"), "/a/b");
    assert_eq!(extract_path("/relative/path"), "/relative/path");
    assert_eq!(country_or_unknown(Some("")), "unknown");
    assert_eq!(country_or_unknown(None), "unknown");
    assert_eq!(country_or_unknown(Some("FR")), "FR");
}

fn empty_security() -> SecurityStats {
    SecurityStats {
        blocked_requests: 0,
        attack_types: CounterMap::new(),
        top_attack_ips: CounterMap::new(),
        top_target_urls: CounterMap::new(),
        attackers_by_country: None,
    }
}

fn empty_traffic() -> TrafficStats {
    TrafficStats { visitors_total: 0, engagement_total: Some(0), trending_urls: CounterMap::new(), clients: None }
}

#[test]
fn analytics_zero_length_session_is_no_visit() {
    let mut t = empty_traffic();
    let mut s = summary("3.3.3.3", "/", &[]);
    s.duration_sec = 0;
    t.record_visit(&s);
    assert_eq!(t.visitors_total, 0);
    assert_eq!(t.engagement_total, Some(0));
    assert_eq!(t.trending_urls.get("/"), 0);
}

#[test]
fn analytics_session_dispatch() {
    let mut sec = empty_security();
    let mut tr = empty_traffic();
    let mut attack = summary("4.4.4.4", "/x", &["xss"]);
    attack.duration_sec = 0;
    count_session(&mut sec, &mut tr, &attack);
    assert_eq!(sec.blocked_requests, 1);
    assert_eq!(tr.visitors_total, 0);
    let mut visit = summary("5.5.5.5", "/y", &[]);
    visit.is_hacker = false;
    count_session(&mut sec, &mut tr, &visit);
    assert_eq!(sec.blocked_requests, 1);
    assert_eq!(tr.visitors_total, 1);
    count_session(&mut sec, &mut tr, &summary("6.6.6.6", "/z", &["rce"]));
    assert_eq!(sec.blocked_requests, 2);
    assert_eq!(tr.visitors_total, 2);
}
