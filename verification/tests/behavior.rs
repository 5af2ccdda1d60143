use biubo_waf::behavior::{BehaviorMetricsCollector, BehaviorProfilingConfig};

const SEC: i64 = 1_000_000_000;
const T0: i64 = 1_700_000_000 * SEC;

fn config(window: u64, max: usize) -> BehaviorProfilingConfig {
    BehaviorProfilingConfig { enabled: true, window_seconds: window, profile_ttl_seconds: 3600, gc_interval_seconds: 600, max_profiles: max }
}

#[test]
fn test_sliding_window_pruning() {
    let mut c = BehaviorMetricsCollector::new(config(5, 100));
    let ip = "192.168.200.1";
    c.track_request(ip, "/old-request", 200, "agent1", T0);
    c.track_request(ip, "/new-request", 200, "agent1", T0 + 6 * SEC);
    let m = c.get_metrics(ip, T0 + 6 * SEC).unwrap();
    assert!(m.request_count <= 2);
    assert_eq!(m.request_count, 1);
    assert_eq!(m.unique_paths, vec!["/new-request".to_string()]);
}

#[test]
fn test_max_profiles_eviction() {
    let mut c = BehaviorMetricsCollector::new(config(300, 5));
    for i in 0..10 {
        c.track_request(&format!("10.0.0.{}", i), "/test", 200, "Mozilla/5.0", T0 + i as i64);
    }
    assert!(c.get_active_ip_count() <= 5);
    assert!(c.get_metrics("10.0.0.0", T0 + 10).is_none());
    assert!(c.get_metrics("10.0.0.9", T0 + 10).is_some());
}

#[test]
fn behavior_counts_errors_paths_and_agents() {
    let mut c = BehaviorMetricsCollector::new(config(300, 100));
    c.track_request("1.1.1.1", "/a", 200, "ua1", T0);
    c.track_request("1.1.1.1", "/b", 404, "ua2", T0 + SEC);
    c.track_request("1.1.1.1", "/a", 500, "ua1", T0 + 2 * SEC);
    let m = c.get_metrics("1.1.1.1", T0 + 2 * SEC).unwrap();
    assert_eq!(m.request_count, 3);
    assert_eq!(m.error_count, 2);
    assert_eq!(m.unique_paths, vec!["/a".to_string(), "/b".to_string()]);
    assert_eq!(m.user_agents, vec!["ua1".to_string(), "ua2".to_string()]);
    assert_eq!(m.window_start, T0);
    assert_eq!(c.get_total_requests(), 3);
    assert!(c.can_track("1.1.1.1"));
}

#[test]
fn behavior_window_counts_whole_seconds() {
    let mut c = BehaviorMetricsCollector::new(config(300, 100));
    c.track_request("2.2.2.2", "/x", 200, "ua", T0);
    assert_eq!(c.get_metrics("2.2.2.2", T0 + 300 * SEC + SEC / 2).unwrap().request_count, 1);
    assert_eq!(c.get_metrics("2.2.2.2", T0 + 301 * SEC).unwrap().request_count, 0);
}

#[test]
fn behavior_cleanup_forgets_idle_addresses() {
    let mut c = BehaviorMetricsCollector::new(config(60, 100));
    c.track_request("3.3.3.3", "/x", 200, "ua", T0);
    c.track_request("4.4.4.4", "/x", 200, "ua", T0 + 100 * SEC);
    assert_eq!(c.cleanup_expired_metrics(T0 + 100 * SEC), 1);
    assert_eq!(c.get_active_ip_count(), 1);
    assert!(c.get_metrics("3.3.3.3", T0).is_none());
}
