use biubo_waf::rate_limit::{BlockReason, RateLimiter, RateWindow};

const SEC: u64 = 1_000_000_000;

#[test]
fn rate_window_limits_and_bans() {
    let mut w = RateWindow::new();
    let t = 100 * SEC;
    for i in 0..3 {
        let d = w.decide(t + i, false, false, 3, 5);
        assert!(!d.result.blocked);
    }
    let d = w.decide(t + 3, false, false, 3, 5);
    assert!(d.result.blocked);
    assert_eq!(d.result.reason, Some(BlockReason::RateLimit));
    assert_eq!(w.len(), 4);
    w.decide(t + 4, false, false, 3, 5);
    let d = w.decide(t + 5, false, false, 3, 5);
    assert!(d.ban_client);
    assert_eq!(d.result.reason, Some(BlockReason::Banned));
    assert_eq!(w.len(), 0);
}

#[test]
fn rate_window_ban_states() {
    let mut w = RateWindow::new();
    let d = w.decide(SEC, true, false, 10, 20);
    assert_eq!(d.result.reason, Some(BlockReason::Banned));
    assert_eq!(w.len(), 0);
    let d = w.decide(SEC, true, true, 10, 20);
    assert_eq!(d.result.reason, Some(BlockReason::TemporaryBanned));
    assert_eq!(w.len(), 1);
}

#[test]
fn rate_window_slides_and_collects() {
    let mut w = RateWindow::new();
    w.decide(10 * SEC, false, false, 1, 100);
    let d = w.decide(10 * SEC + SEC / 2, false, false, 1, 100);
    assert!(d.result.blocked);
    let d = w.decide(12 * SEC, false, false, 1, 100);
    assert!(!d.result.blocked);
    assert_eq!(w.len(), 1);
    assert!(w.collect(14 * SEC));
    assert!(!w.collect(15 * SEC));
}

#[test]
fn rate_limiter_keeps_a_window_per_client() {
    let mut limiter = RateLimiter::new();
    let t = 50 * SEC;
    let d = limiter.check_rate_limit("1.1.1.1", t, true, false, 1, 10);
    assert_eq!(d.result.reason, Some(BlockReason::Banned));
    assert_eq!(limiter.len(), 0);
    assert!(!limiter.check_rate_limit("1.1.1.1", t, false, false, 1, 10).result.blocked);
    assert!(!limiter.check_rate_limit("2.2.2.2", t, false, false, 1, 10).result.blocked);
    let d = limiter.check_rate_limit("1.1.1.1", t + 1, false, false, 1, 10);
    assert_eq!(d.result.reason, Some(BlockReason::RateLimit));
    assert_eq!(limiter.len(), 2);
    limiter.collect_garbage(t + 2 * SEC);
    assert_eq!(limiter.len(), 2);
    limiter.collect_garbage(t + 4 * SEC);
    assert_eq!(limiter.len(), 0);
}
