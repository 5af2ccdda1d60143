//! Three-state circuit breaker guarding calls to outside services.
//!
//! Time is handed in by the caller as nanoseconds of a monotonic clock.
use vstd::prelude::*;

verus! {

/// Nanoseconds in one second.
pub const NANOS_PER_SEC: u64 = 1_000_000_000;

/// Outside services that a breaker protects.
#[derive(Debug, Clone, Copy, PartialEq, Eq, Structural)]
pub enum ServiceKind {
    /// Large language model calls.
    Llm,
    /// IP reputation provider calls.
    Reputation,
}

/// The state of the breaker for one service.
#[derive(Debug, Clone, Copy, PartialEq, Eq, Structural)]
pub enum CircuitBreakerState {
    /// Requests pass and failures are counted.
    Closed,
    /// Requests are rejected until the recovery timeout elapses.
    Open,
    /// A limited number of probe requests may pass.
    HalfOpen,
}

/// Tuning of the breaker.
#[derive(Debug, Clone, Copy)]
pub struct CircuitBreakerConfig {
    /// Failures (counted since the last success) after which a closed circuit opens.
    pub failure_threshold: u64,
    /// Whole seconds after the last failure before an open circuit turns half-open.
    pub recovery_timeout_secs: u64,
    /// Probe requests let through while half-open.
    pub half_open_max_requests: u64,
}

impl CircuitBreakerConfig {
    /// The default tuning: threshold 5, recovery after 30 s, 3 probes.
    pub fn default_config() -> (c: Self)
        ensures
            c.failure_threshold == 5,
            c.recovery_timeout_secs == 30,
            c.half_open_max_requests == 3,
    {
        CircuitBreakerConfig { failure_threshold: 5, recovery_timeout_secs: 30, half_open_max_requests: 3 }
    }
}

impl Default for CircuitBreakerConfig {
    fn default() -> (c: Self)
        ensures
            c.failure_threshold == 5,
            c.recovery_timeout_secs == 30,
            c.half_open_max_requests == 3,
    {
        Self::default_config()
    }
}

/// Per-service bookkeeping.
#[derive(Debug, Clone, Copy)]
pub struct ServiceState {
    pub state: CircuitBreakerState,
    pub failure_count: u64,
    /// Monotonic time of the last failure, in nanoseconds.
    pub last_failure_time: Option<u64>,
    pub half_open_requests: u64,
}

/// The state of a service that has not been seen yet.
pub open spec fn fresh_state() -> ServiceState {
    ServiceState {
        state: CircuitBreakerState::Closed,
        failure_count: 0,
        last_failure_time: None,
        half_open_requests: 0,
    }
}

/// Whole seconds from `since` to `now`, zero when `now` is earlier.
pub open spec fn elapsed_secs(since: u64, now: u64) -> int {
    if now >= since { (now - since) as int / NANOS_PER_SEC as int } else { 0 }
}

/// The state after the recovery check that precedes each query.
pub open spec fn after_recovery_check(s: ServiceState, cfg: CircuitBreakerConfig, now: u64) -> ServiceState {
    if s.state == CircuitBreakerState::Open && s.last_failure_time.is_some()
        && elapsed_secs(s.last_failure_time.unwrap(), now) >= cfg.recovery_timeout_secs {
        ServiceState { state: CircuitBreakerState::HalfOpen, half_open_requests: 0, ..s }
    } else {
        s
    }
}

/// The state after one failure was recorded at `now`.
pub open spec fn after_failure(s: ServiceState, cfg: CircuitBreakerConfig, now: u64) -> ServiceState {
    let count = (s.failure_count + 1) as u64;
    let next = if s.state == CircuitBreakerState::HalfOpen {
        CircuitBreakerState::Open
    } else if s.state == CircuitBreakerState::Closed && count >= cfg.failure_threshold {
        CircuitBreakerState::Open
    } else {
        s.state
    };
    ServiceState { state: next, failure_count: count, last_failure_time: Some(now), half_open_requests: 0 }
}

/// The state after one success was recorded.
pub open spec fn after_success(s: ServiceState) -> ServiceState {
    ServiceState {
        state: if s.state == CircuitBreakerState::HalfOpen { CircuitBreakerState::Closed } else { s.state },
        failure_count: 0,
        last_failure_time: None,
        half_open_requests: 0,
    }
}

/// The stored entry of a service, or the fresh state when there is none.
pub open spec fn or_fresh(o: Option<ServiceState>) -> ServiceState {
    match o {
        Some(s) => s,
        None => fresh_state(),
    }
}

impl ServiceState {
    /// The state of a service that has not been seen yet.
    pub fn fresh() -> (s: Self)
        ensures
            s == fresh_state(),
    {
        ServiceState {
            state: CircuitBreakerState::Closed,
            failure_count: 0,
            last_failure_time: None,
            half_open_requests: 0,
        }
    }

    fn recovery_check(&mut self, cfg: &CircuitBreakerConfig, now: u64)
        ensures
            *final(self) == after_recovery_check(*old(self), *cfg, now),
    {
        if self.state == CircuitBreakerState::Open {
            if let Some(last) = self.last_failure_time {
                let elapsed = if now >= last { (now - last) / NANOS_PER_SEC } else { 0 };
                if elapsed >= cfg.recovery_timeout_secs {
                    self.state = CircuitBreakerState::HalfOpen;
                    self.half_open_requests = 0;
                }
            }
        }
    }
}

/// A circuit breaker with one entry per service.
pub struct CircuitBreaker {
    pub config: CircuitBreakerConfig,
    pub llm: Option<ServiceState>,
    pub reputation: Option<ServiceState>,
}

impl CircuitBreaker {
    /// The stored entry of a service (`None` until first touched or after a reset).
    pub open spec fn entry(&self, kind: ServiceKind) -> Option<ServiceState> {
        match kind {
            ServiceKind::Llm => self.llm,
            ServiceKind::Reputation => self.reputation,
        }
    }

    /// The state of a service as the breaker sees it before any time-based check.
    pub open spec fn current(&self, kind: ServiceKind) -> ServiceState {
        or_fresh(self.entry(kind))
    }

    /// The two kinds are different services.
    pub open spec fn other(kind: ServiceKind) -> ServiceKind {
        match kind {
            ServiceKind::Llm => ServiceKind::Reputation,
            ServiceKind::Reputation => ServiceKind::Llm,
        }
    }

    /// A breaker with no service seen yet.
    pub fn new(config: CircuitBreakerConfig) -> (cb: Self)
        ensures
            cb.config == config,
            cb.entry(ServiceKind::Llm).is_none(),
            cb.entry(ServiceKind::Reputation).is_none(),
    {
        CircuitBreaker { config, llm: None, reputation: None }
    }

    fn get(&self, kind: ServiceKind) -> (s: ServiceState)
        ensures
            s == self.current(kind),
    {
        let o = match kind {
            ServiceKind::Llm => self.llm,
            ServiceKind::Reputation => self.reputation,
        };
        match o {
            Some(s) => s,
            None => ServiceState::fresh(),
        }
    }

    fn put(&mut self, kind: ServiceKind, s: ServiceState)
        ensures
            final(self).entry(kind) == Some(s),
            final(self).entry(Self::other(kind)) == old(self).entry(Self::other(kind)),
            final(self).config == old(self).config,
    {
        match kind {
            ServiceKind::Llm => { self.llm = Some(s); },
            ServiceKind::Reputation => { self.reputation = Some(s); },
        }
    }

    /// Failures counted for a service since its last success or reset.
    pub fn failure_count(&self, kind: ServiceKind) -> (n: u64)
        ensures
            n == self.current(kind).failure_count,
    {
        self.get(kind).failure_count
    }

    /// The current state of a service; an open circuit whose recovery timeout
    /// has elapsed turns half-open first.
    pub fn state(&mut self, kind: ServiceKind, now: u64) -> (st: CircuitBreakerState)
        ensures
            final(self).entry(kind) == Some(after_recovery_check(old(self).current(kind), old(self).config, now)),
            final(self).entry(Self::other(kind)) == old(self).entry(Self::other(kind)),
            final(self).config == old(self).config,
            st == after_recovery_check(old(self).current(kind), old(self).config, now).state,
    {
        let mut s = self.get(kind);
        s.recovery_check(&self.config, now);
        self.put(kind, s);
        s.state
    }

    /// Whether a request to the service may proceed now. Closed: always; open:
    /// never (after the recovery check); half-open: while fewer than
    /// `half_open_max_requests` probes were let through, counting this one.
    pub fn is_allowed(&mut self, kind: ServiceKind, now: u64) -> (allowed: bool)
        ensures
            ({
                let s = after_recovery_check(old(self).current(kind), old(self).config, now);
                &&& allowed == (s.state == CircuitBreakerState::Closed
                    || (s.state == CircuitBreakerState::HalfOpen
                        && s.half_open_requests < old(self).config.half_open_max_requests))
                &&& final(self).entry(kind) == Some(
                    if s.state == CircuitBreakerState::HalfOpen && allowed {
                        ServiceState { half_open_requests: (s.half_open_requests + 1) as u64, ..s }
                    } else {
                        s
                    })
            }),
            (final(self).current(kind), allowed) == query(old(self).current(kind), old(self).config, now),
            final(self).entry(Self::other(kind)) == old(self).entry(Self::other(kind)),
            final(self).config == old(self).config,
    {
        let mut s = self.get(kind);
        s.recovery_check(&self.config, now);
        let allowed = match s.state {
            CircuitBreakerState::Closed => true,
            CircuitBreakerState::Open => false,
            CircuitBreakerState::HalfOpen => {
                if s.half_open_requests < self.config.half_open_max_requests {
                    s.half_open_requests = s.half_open_requests + 1;
                    true
                } else {
                    false
                }
            },
        };
        self.put(kind, s);
        allowed
    }

    /// Records a successful call: counters clear and a half-open circuit closes.
    /// A service with no entry is left without one.
    pub fn record_success(&mut self, kind: ServiceKind)
        ensures
            final(self).entry(kind) == (match old(self).entry(kind) {
                Some(s) => Some(after_success(s)),
                None => None,
            }),
            final(self).entry(Self::other(kind)) == old(self).entry(Self::other(kind)),
            final(self).config == old(self).config,
    {
        let o = match kind {
            ServiceKind::Llm => self.llm,
            ServiceKind::Reputation => self.reputation,
        };
        if let Some(s) = o {
            let next = ServiceState {
                state: if s.state == CircuitBreakerState::HalfOpen { CircuitBreakerState::Closed } else { s.state },
                failure_count: 0,
                last_failure_time: None,
                half_open_requests: 0,
            };
            self.put(kind, next);
        }
    }

    /// Records a failed call at `now`: the count grows, a half-open circuit
    /// re-opens, and a closed one opens once the count reaches the threshold.
    pub fn record_failure(&mut self, kind: ServiceKind, now: u64)
        requires
            old(self).current(kind).failure_count < u64::MAX,
        ensures
            final(self).entry(kind) == Some(after_failure(old(self).current(kind), old(self).config, now)),
            final(self).entry(Self::other(kind)) == old(self).entry(Self::other(kind)),
            final(self).config == old(self).config,
    {
        let s = self.get(kind);
        let count = s.failure_count + 1;
        let next = if s.state == CircuitBreakerState::HalfOpen {
            CircuitBreakerState::Open
        } else if s.state == CircuitBreakerState::Closed && count >= self.config.failure_threshold {
            CircuitBreakerState::Open
        } else {
            s.state
        };
        self.put(kind, ServiceState { state: next, failure_count: count, last_failure_time: Some(now), half_open_requests: 0 });
    }

    /// Forgets everything about a service: it is closed again.
    pub fn reset(&mut self, kind: ServiceKind)
        ensures
            final(self).entry(kind).is_none(),
            final(self).entry(Self::other(kind)) == old(self).entry(Self::other(kind)),
            final(self).config == old(self).config,
    {
        match kind {
            ServiceKind::Llm => { self.llm = None; },
            ServiceKind::Reputation => { self.reputation = None; },
        }
    }
}

/// `n` failures recorded in a row at `now`.
pub open spec fn after_failures(s: ServiceState, cfg: CircuitBreakerConfig, n: nat, now: u64) -> ServiceState
    decreases n,
{
    if n == 0 {
        s
    } else {
        after_failure(after_failures(s, cfg, (n - 1) as nat, now), cfg, now)
    }
}

/// A closed circuit with `c` counted failures stays closed under further
/// failures until the count reaches the threshold, and is open from then on.
pub proof fn law_closed_opens_at_threshold(s: ServiceState, cfg: CircuitBreakerConfig, n: nat, now: u64)
    requires
        s.state == CircuitBreakerState::Closed,
        s.failure_count + n <= u64::MAX,
    ensures
        after_failures(s, cfg, n, now).failure_count == s.failure_count + n,
        after_failures(s, cfg, n, now).state == (if n >= 1 && s.failure_count + n >= cfg.failure_threshold {
            CircuitBreakerState::Open
        } else {
            CircuitBreakerState::Closed
        }),
    decreases n,
{
    if n > 0 {
        law_closed_opens_at_threshold(s, cfg, (n - 1) as nat, now);
    }
}

/// From a fresh service, exactly `failure_threshold` failures open the circuit
/// (at least one failure is needed).
pub proof fn law_fresh_opens_after_threshold_failures(cfg: CircuitBreakerConfig, n: nat, now: u64)
    requires
        n <= u64::MAX,
    ensures
        after_failures(fresh_state(), cfg, n, now).state == CircuitBreakerState::Open
            <==> (n >= 1 && n >= cfg.failure_threshold),
{
    law_closed_opens_at_threshold(fresh_state(), cfg, n, now);
}

/// An open circuit stays open, and so rejects requests, until the recovery
/// timeout has elapsed since the last failure; then it turns half-open with
/// no probe spent.
pub proof fn law_open_until_recovery_timeout(s: ServiceState, cfg: CircuitBreakerConfig, now: u64)
    requires
        s.state == CircuitBreakerState::Open,
        s.last_failure_time.is_some(),
    ensures
        elapsed_secs(s.last_failure_time.unwrap(), now) < cfg.recovery_timeout_secs
            ==> after_recovery_check(s, cfg, now) == s,
        elapsed_secs(s.last_failure_time.unwrap(), now) >= cfg.recovery_timeout_secs
            ==> after_recovery_check(s, cfg, now).state == CircuitBreakerState::HalfOpen
                && after_recovery_check(s, cfg, now).half_open_requests == 0,
{
}

/// A failed probe re-opens a half-open circuit; a successful call closes it
/// and clears the failure count.
pub proof fn law_half_open_outcomes(s: ServiceState, cfg: CircuitBreakerConfig, now: u64)
    requires
        s.state == CircuitBreakerState::HalfOpen,
    ensures
        after_failure(s, cfg, now).state == CircuitBreakerState::Open,
        after_success(s).state == CircuitBreakerState::Closed,
        after_success(s).failure_count == 0,
{
}

/// A recorded failure starts the recovery clock, so right after it an open
/// circuit still rejects (whenever the timeout is at least one second).
pub proof fn law_failure_starts_recovery_clock(s: ServiceState, cfg: CircuitBreakerConfig, now: u64)
    requires
        cfg.recovery_timeout_secs >= 1,
        after_failure(s, cfg, now).state == CircuitBreakerState::Open,
    ensures
        after_recovery_check(after_failure(s, cfg, now), cfg, now).state == CircuitBreakerState::Open,
{
}

/// One `is_allowed` query at `now`: the state afterwards and the answer.
pub open spec fn query(s: ServiceState, cfg: CircuitBreakerConfig, now: u64) -> (ServiceState, bool) {
    let r = after_recovery_check(s, cfg, now);
    let allowed = r.state == CircuitBreakerState::Closed
        || (r.state == CircuitBreakerState::HalfOpen && r.half_open_requests < cfg.half_open_max_requests);
    (if r.state == CircuitBreakerState::HalfOpen && allowed {
        ServiceState { half_open_requests: (r.half_open_requests + 1) as u64, ..r }
    } else {
        r
    }, allowed)
}

/// A run of queries at the given times, with no outcome recorded between
/// them: the state afterwards and the answers in order.
pub open spec fn queries(s: ServiceState, cfg: CircuitBreakerConfig, ts: Seq<u64>) -> (ServiceState, Seq<bool>)
    decreases ts.len(),
{
    if ts.len() == 0 {
        (s, Seq::empty())
    } else {
        let (s1, a) = queries(s, cfg, ts.drop_last());
        let (s2, b) = query(s1, cfg, ts.last());
        (s2, a.push(b))
    }
}

/// Over a run of queries with no outcome recorded: a closed circuit lets
/// every request through and stays as it is; an open circuit whose
/// recovery timeout has not elapsed at any of the times refuses every
/// request and stays as it is; a half-open circuit lets through exactly the
/// probes left up to `half_open_max_requests`, the first ones, and refuses
/// the rest.
pub proof fn law_queries_by_state(s: ServiceState, cfg: CircuitBreakerConfig, ts: Seq<u64>)
    ensures
        queries(s, cfg, ts).1.len() == ts.len(),
        s.state == CircuitBreakerState::Closed ==> queries(s, cfg, ts).0 == s
            && forall|i: int| 0 <= i < ts.len() ==> #[trigger] queries(s, cfg, ts).1[i],
        (s.state == CircuitBreakerState::Open && s.last_failure_time is Some
            && forall|i: int| 0 <= i < ts.len()
                ==> #[trigger] elapsed_secs(s.last_failure_time->0, ts[i]) < cfg.recovery_timeout_secs)
            ==> queries(s, cfg, ts).0 == s
                && forall|i: int| 0 <= i < ts.len() ==> !#[trigger] queries(s, cfg, ts).1[i],
        (s.state == CircuitBreakerState::HalfOpen && s.half_open_requests <= cfg.half_open_max_requests)
            ==> queries(s, cfg, ts).0.state == CircuitBreakerState::HalfOpen
                && queries(s, cfg, ts).0.half_open_requests == (if s.half_open_requests + ts.len() <= cfg.half_open_max_requests {
                    s.half_open_requests + ts.len()
                } else {
                    cfg.half_open_max_requests as int
                })
                && forall|i: int| 0 <= i < ts.len()
                    ==> (#[trigger] queries(s, cfg, ts).1[i] <==> s.half_open_requests + i < cfg.half_open_max_requests),
    decreases ts.len(),
{
    if ts.len() > 0 {
        let p = ts.drop_last();
        law_queries_by_state(s, cfg, p);
        let (s1, a) = queries(s, cfg, p);
        let (s2, b) = query(s1, cfg, ts.last());
        assert(queries(s, cfg, ts) == (s2, a.push(b)));
        if s.state == CircuitBreakerState::Open && s.last_failure_time is Some
            && (forall|i: int| 0 <= i < ts.len()
                ==> #[trigger] elapsed_secs(s.last_failure_time->0, ts[i]) < cfg.recovery_timeout_secs) {
            assert forall|i: int| 0 <= i < p.len()
                implies #[trigger] elapsed_secs(s.last_failure_time->0, p[i]) < cfg.recovery_timeout_secs by {
                assert(p[i] == ts[i]);
            }
            assert(elapsed_secs(s.last_failure_time->0, ts[ts.len() - 1]) < cfg.recovery_timeout_secs);
        }
        assert forall|i: int| 0 <= i < p.len() implies #[trigger] a.push(b)[i] == a[i] by {}
    }
}

/// A service with no entry (never seen, or reset) is closed.
pub proof fn law_reset_is_closed(cfg: CircuitBreakerConfig, now: u64)
    ensures
        after_recovery_check(or_fresh(None), cfg, now).state == CircuitBreakerState::Closed,
{
}

} // verus!
