use biubo_waf::circuit_breaker::{CircuitBreaker, CircuitBreakerConfig, CircuitBreakerState, ServiceKind, ServiceState};

const SEC: u64 = 1_000_000_000;
const T0: u64 = 1_000 * SEC;

fn config() -> CircuitBreakerConfig {
    CircuitBreakerConfig {
        failure_threshold: 3,
        recovery_timeout_secs: 30,
        half_open_max_requests: 2,
    }
}

fn force_half_open(cb: &mut CircuitBreaker) {
    let mut s = cb.llm.unwrap_or(ServiceState::fresh());
    s.state = CircuitBreakerState::HalfOpen;
    s.half_open_requests = 0;
    cb.llm = Some(s);
}

#[test]
fn test_initial_state_is_closed() {
    let mut cb = CircuitBreaker::new(config());
    assert_eq!(cb.state(ServiceKind::Llm, T0), CircuitBreakerState::Closed);
    assert_eq!(cb.state(ServiceKind::Reputation, T0), CircuitBreakerState::Closed);
}

#[test]
fn test_is_allowed_when_closed() {
    let mut cb = CircuitBreaker::new(config());
    assert!(cb.is_allowed(ServiceKind::Llm, T0));
    assert!(cb.is_allowed(ServiceKind::Reputation, T0));
}

#[test]
fn test_trips_after_threshold_failures() {
    let mut cb = CircuitBreaker::new(config());
    cb.record_failure(ServiceKind::Llm, T0);
    cb.record_failure(ServiceKind::Llm, T0);
    assert_eq!(cb.state(ServiceKind::Llm, T0), CircuitBreakerState::Closed);
    cb.record_failure(ServiceKind::Llm, T0);
    assert_eq!(cb.state(ServiceKind::Llm, T0), CircuitBreakerState::Open);
}

#[test]
fn test_rejects_requests_when_open() {
    let mut cb = CircuitBreaker::new(config());
    for _ in 0..3 {
        cb.record_failure(ServiceKind::Reputation, T0);
    }
    assert_eq!(cb.state(ServiceKind::Reputation, T0), CircuitBreakerState::Open);
    assert!(!cb.is_allowed(ServiceKind::Reputation, T0));
}

#[test]
fn test_success_resets_failure_count() {
    let mut cb = CircuitBreaker::new(config());
    cb.record_failure(ServiceKind::Llm, T0);
    cb.record_failure(ServiceKind::Llm, T0);
    cb.record_success(ServiceKind::Llm);
    cb.record_failure(ServiceKind::Llm, T0);
    assert_eq!(cb.state(ServiceKind::Llm, T0), CircuitBreakerState::Closed);
    cb.record_failure(ServiceKind::Llm, T0);
    cb.record_failure(ServiceKind::Llm, T0);
    assert_eq!(cb.state(ServiceKind::Llm, T0), CircuitBreakerState::Open);
}

#[test]
fn test_half_open_allows_limited_requests() {
    let mut cb = CircuitBreaker::new(config());
    for _ in 0..3 {
        cb.record_failure(ServiceKind::Llm, T0);
    }
    force_half_open(&mut cb);
    assert!(cb.is_allowed(ServiceKind::Llm, T0));
    assert!(cb.is_allowed(ServiceKind::Llm, T0));
    assert!(!cb.is_allowed(ServiceKind::Llm, T0));
}

#[test]
fn test_half_open_failure_reopens() {
    let mut cb = CircuitBreaker::new(config());
    for _ in 0..3 {
        cb.record_failure(ServiceKind::Llm, T0);
    }
    force_half_open(&mut cb);
    cb.record_failure(ServiceKind::Llm, T0);
    assert_eq!(cb.state(ServiceKind::Llm, T0), CircuitBreakerState::Open);
}

#[test]
fn test_half_open_success_recovers() {
    let mut cb = CircuitBreaker::new(config());
    for _ in 0..3 {
        cb.record_failure(ServiceKind::Llm, T0);
    }
    force_half_open(&mut cb);
    cb.record_success(ServiceKind::Llm);
    assert_eq!(cb.state(ServiceKind::Llm, T0), CircuitBreakerState::Closed);
    assert!(cb.is_allowed(ServiceKind::Llm, T0));
}

#[test]
fn test_reset_clears_state() {
    let mut cb = CircuitBreaker::new(config());
    for _ in 0..3 {
        cb.record_failure(ServiceKind::Llm, T0);
    }
    assert_eq!(cb.state(ServiceKind::Llm, T0), CircuitBreakerState::Open);
    cb.reset(ServiceKind::Llm);
    assert_eq!(cb.state(ServiceKind::Llm, T0), CircuitBreakerState::Closed);
    assert!(cb.is_allowed(ServiceKind::Llm, T0));
}

#[test]
fn test_services_are_independent() {
    let mut cb = CircuitBreaker::new(config());
    for _ in 0..3 {
        cb.record_failure(ServiceKind::Llm, T0);
    }
    assert_eq!(cb.state(ServiceKind::Llm, T0), CircuitBreakerState::Open);
    assert_eq!(cb.state(ServiceKind::Reputation, T0), CircuitBreakerState::Closed);
    assert!(cb.is_allowed(ServiceKind::Reputation, T0));
    assert!(!cb.is_allowed(ServiceKind::Llm, T0));
}

#[test]
fn breaker_half_opens_after_recovery_timeout() {
    let mut cb = CircuitBreaker::new(config());
    for _ in 0..3 {
        cb.record_failure(ServiceKind::Llm, T0);
    }
    assert_eq!(cb.state(ServiceKind::Llm, T0 + 29 * SEC), CircuitBreakerState::Open);
    assert_eq!(cb.state(ServiceKind::Llm, T0 + 30 * SEC), CircuitBreakerState::HalfOpen);
    assert!(cb.is_allowed(ServiceKind::Llm, T0 + 30 * SEC));
}

#[test]
fn breaker_default_config_values() {
    let c = CircuitBreakerConfig::default();
    assert_eq!(c.failure_threshold, 5);
    assert_eq!(c.recovery_timeout_secs, 30);
    assert_eq!(c.half_open_max_requests, 3);
    assert_eq!(CircuitBreaker::new(config()).failure_count(ServiceKind::Llm), 0);
}
