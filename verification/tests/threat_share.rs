use biubo_waf::threat_share::{ThreatEvent, ThreatIntelligenceShare};

const NOW: i64 = 1_700_000_000;

fn event(ip: &str, kind: &str, sev: &str, node: &str, at: i64) -> ThreatEvent {
    ThreatEvent::new(ip.to_string(), kind.to_string(), sev.to_string(), node.to_string(), at)
}

#[test]
fn test_threat_event_creation() {
    let e = event("192.168.1.100", "sql_injection", "high", "node-1", NOW);
    assert!(!e.id.is_empty());
    assert_eq!(e.ip, "192.168.1.100");
    assert_eq!(e.attack_type, "sql_injection");
    assert_eq!(e.severity, "high");
    assert_eq!(e.source_node_id, "node-1");
    assert!(!e.correlation_id.is_empty());
}

#[test]
fn test_threat_intelligence_share_initialization() {
    let share = ThreatIntelligenceShare::new();
    assert_eq!(share.local_blocklist.len(), 0);
    assert_eq!(share.event_log.len(), 0);
    assert_eq!(share.get_event_count(), 0);
}

#[test]
fn test_receive_threat_event_blocks_ip() {
    let mut share = ThreatIntelligenceShare::new();
    share.receive_threat_event(&event("10.0.0.50", "xss", "medium", "node-2", NOW), NOW);
    assert_eq!(share.get_blocked_ip_count(), 1);
    assert_eq!(share.get_event_count(), 1);
}

#[test]
fn test_receive_multiple_threat_events() {
    let mut share = ThreatIntelligenceShare::new();
    for ip in ["10.0.0.1", "10.0.0.2", "10.0.0.3"] {
        share.receive_threat_event(&event(ip, "scanner", "low", "node-3", NOW), NOW);
    }
    assert_eq!(share.get_blocked_ip_count(), 3);
    assert_eq!(share.get_event_count(), 3);
}

#[test]
fn test_get_recent_events() {
    let mut share = ThreatIntelligenceShare::new();
    for i in 0..5 {
        let e = event(&format!("10.0.0.{}", i), &format!("attack_type_{}", i), "high", "node-5", NOW + i);
        share.receive_threat_event(&e, NOW);
    }
    let recent = share.get_recent_events(3);
    assert_eq!(recent.len(), 3);
    assert_eq!(recent[0].ip, "10.0.0.4");
    assert_eq!(recent[1].ip, "10.0.0.3");
    assert_eq!(recent[2].ip, "10.0.0.2");
    let all = share.get_recent_events(10);
    assert_eq!(all.len(), 5);
}

#[test]
fn threat_share_blocks_expire() {
    let mut share = ThreatIntelligenceShare::new();
    share.receive_threat_event(&event("10.9.9.9", "xss", "low", "n", NOW), NOW);
    share.receive_threat_event(&event("10.8.8.8", "xss", "low", "n", NOW), NOW + 100);
    assert_eq!(share.get_blocked_ips(NOW + 3600).len(), 2);
    let left = share.get_blocked_ips(NOW + 3601);
    assert_eq!(left, vec!["10.8.8.8".to_string()]);
    assert_eq!(share.get_blocked_ip_count(), 1);
}

#[test]
fn threat_share_log_is_bounded() {
    let mut share = ThreatIntelligenceShare::new();
    for i in 0..1000 {
        share.receive_threat_event(&event("10.0.0.1", "scan", "low", "n", NOW + i), NOW);
    }
    assert_eq!(share.event_log.len(), 1000);
    share.receive_threat_event(&event("10.0.0.1", "scan", "low", "n", NOW + 2000), NOW);
    assert_eq!(share.event_log.len(), 501);
    assert_eq!(share.get_event_count(), 1001);
}
