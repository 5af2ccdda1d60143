use biubo_waf::metrics::Metrics;
use std::time::Duration;

#[test]
fn metrics_start_at_zero() {
    let m = Metrics::new();
    let s = m.snapshot();
    assert_eq!(s.requests_total, 0);
    assert_eq!(s.latency_buckets, [0; 6]);
}

#[test]
fn metrics_latency_buckets() {
    let mut m = Metrics::new();
    m.record_latency(Duration::from_micros(500));
    m.record_latency(Duration::from_millis(3));
    m.record_latency(Duration::from_millis(7));
    m.record_latency(Duration::from_millis(20));
    m.record_latency(Duration::from_millis(100));
    m.record_latency(Duration::from_secs(2));
    m.record_latency_nanos(1_000_000);
    assert_eq!(m.snapshot().latency_buckets, [1, 2, 1, 1, 1, 1]);
}

#[test]
fn metrics_prometheus_text() {
    let mut m = Metrics::new();
    m.requests_total = 7;
    m.reputation_bans = 2;
    m.record_latency_nanos(10);
    let out = m.prometheus_output();
    assert!(out.starts_with("# HELP biubo_requests_total Total requests processed\n# TYPE biubo_requests_total counter\nbiubo_requests_total 7\n"));
    assert!(out.contains("biubo_reputation_bans 2\n"));
    assert!(out.contains("biubo_request_latency_ns_bucket{le=\"1ms\"} 1\n"));
    assert!(out.contains("biubo_request_latency_ns_bucket{le=\"+Inf\"} 0\n"));
    assert!(out.ends_with("biubo_request_latency_ns_total 1\n"));
}

#[test]
fn metrics_bucket_lines_in_order() {
    let mut m = Metrics::new();
    for n in [10u64, 2_000_000, 7_000_000, 20_000_000, 100_000_000, 300_000_000, 400_000_000] {
        m.record_latency_nanos(n);
    }
    let out = m.prometheus_output();
    let labels = ["1ms", "5ms", "10ms", "50ms", "200ms", "+Inf"];
    let counts = [1, 1, 1, 1, 1, 2];
    let mut last = 0;
    for (l, c) in labels.iter().zip(counts.iter()) {
        let line = format!("biubo_request_latency_ns_bucket{{le=\"{}\"}} {}\n", l, c);
        let at = out.find(&line).unwrap();
        assert!(at >= last);
        last = at;
    }
    assert!(out.ends_with("biubo_request_latency_ns_total 7\n"));
    assert_eq!(out.matches(" counter\n").count(), 21);
}
