//! Per-IP sliding one-second request window with a ban threshold, and the
//! table of windows by client address.
//!
//! The decision for one request is a function of the client's ban state, its
//! window of recent request times and the settings; the caller performs the
//! ban that the decision asks for.
use vstd::prelude::*;
use dashmap::DashMap;
use crate::clock::NANOS_PER_SEC;

verus! {

/// Why a request was blocked.
#[derive(Debug, Clone, Copy, PartialEq, Eq, Structural)]
pub enum BlockReason {
    Banned,
    TemporaryBanned,
    RateLimit,
}

/// The answer for one request.
#[derive(Debug, Clone, Copy)]
pub struct RateLimitResult {
    pub blocked: bool,
    pub reason: Option<BlockReason>,
}

/// The answer for one request and whether the client must be banned now.
#[derive(Debug, Clone, Copy)]
pub struct RateDecision {
    pub result: RateLimitResult,
    pub ban_client: bool,
}

/// A recorded request time lies more than one second before `now`
/// (a later time counts as no time elapsed).
pub open spec fn outside_window(t: u64, now: u64) -> bool {
    now >= t && now - t > NANOS_PER_SEC
}

/// The window without the leading requests that fell out of it.
pub open spec fn drop_expired(s: Seq<u64>, now: u64) -> Seq<u64>
    decreases s.len(),
{
    if s.len() > 0 && outside_window(s[0], now) {
        drop_expired(s.drop_first(), now)
    } else {
        s
    }
}

/// A request time lies more than two whole seconds before `now` (collection rule).
pub open spec fn collectable(t: u64, now: u64) -> bool {
    now >= t && (now - t) / NANOS_PER_SEC as int > 2
}

/// The window without the leading requests older than the collection horizon.
pub open spec fn drop_collectable(s: Seq<u64>, now: u64) -> Seq<u64>
    decreases s.len(),
{
    if s.len() > 0 && collectable(s[0], now) {
        drop_collectable(s.drop_first(), now)
    } else {
        s
    }
}

/// The outcome of one request.
pub open spec fn decide_spec(
    s: Seq<u64>,
    now: u64,
    banned: bool,
    temporary: bool,
    per_sec: i64,
    threshold: i64,
) -> (RateLimitResult, bool, Seq<u64>) {
    if banned && !temporary {
        (RateLimitResult { blocked: true, reason: Some(BlockReason::Banned) }, false, s)
    } else {
        let w = drop_expired(s, now);
        if w.len() >= threshold as usize {
            (RateLimitResult { blocked: true, reason: Some(BlockReason::Banned) }, true, Seq::<u64>::empty())
        } else {
            let w2 = w.push(now);
            if w2.len() > per_sec as usize {
                (RateLimitResult { blocked: true, reason: Some(BlockReason::RateLimit) }, false, w2)
            } else if temporary {
                (RateLimitResult { blocked: true, reason: Some(BlockReason::TemporaryBanned) }, false, w2)
            } else {
                (RateLimitResult { blocked: false, reason: None }, false, w2)
            }
        }
    }
}

/// Request times (monotonic nanoseconds) of one client within the last second.
pub struct RateWindow {
    timestamps: std::collections::VecDeque<u64>,
}

impl RateWindow {
    /// The recorded request times, oldest first.
    pub closed spec fn times(&self) -> Seq<u64> {
        self.timestamps@
    }

    /// An empty window.
    pub fn new() -> (w: Self)
        ensures
            w.times() == Seq::<u64>::empty(),
    {
        RateWindow { timestamps: std::collections::VecDeque::new() }
    }

    /// Number of recorded request times.
    pub fn len(&self) -> (n: usize)
        ensures
            n == self.times().len(),
    {
        self.timestamps.len()
    }

    fn drop_expired_front(&mut self, now: u64)
        ensures
            final(self).times() == drop_expired(old(self).times(), now),
    {
        while self.timestamps.len() > 0
            invariant
                drop_expired(self.times(), now) == drop_expired(old(self).times(), now),
            decreases self.timestamps@.len(),
        {
            let front = self.timestamps[0];
            if now >= front && now - front > NANOS_PER_SEC {
                let ghost before = self.times();
                self.timestamps.pop_front();
                assert(self.times() =~= before.drop_first());
            } else {
                return;
            }
        }
    }

    /// Decides one request at `now` for a client with the given ban state,
    /// with limits `per_sec` (requests per second) and `threshold` (requests
    /// in the window that trigger a ban). A client banned without expiry flag
    /// is refused without touching the window. Otherwise requests older than
    /// one second leave the window; a full window (at least `threshold`
    /// requests) is cleared and the client is to be banned; else the request
    /// is recorded and blocked when the window holds more than `per_sec`
    /// requests, or when the client is temporarily banned.
    pub fn decide(&mut self, now: u64, banned: bool, temporary: bool, per_sec: i64, threshold: i64) -> (d: RateDecision)
        ensures
            ({
                let r = decide_spec(old(self).times(), now, banned, temporary, per_sec, threshold);
                &&& d.result == r.0
                &&& d.ban_client == r.1
                &&& final(self).times() == r.2
            }),
    {
        if banned && !temporary {
            return RateDecision { result: RateLimitResult { blocked: true, reason: Some(BlockReason::Banned) }, ban_client: false };
        }
        self.drop_expired_front(now);
        if self.timestamps.len() >= threshold as usize {
            self.timestamps.clear();
            return RateDecision { result: RateLimitResult { blocked: true, reason: Some(BlockReason::Banned) }, ban_client: true };
        }
        self.timestamps.push_back(now);
        let count = self.timestamps.len();
        if count > per_sec as usize {
            RateDecision { result: RateLimitResult { blocked: true, reason: Some(BlockReason::RateLimit) }, ban_client: false }
        } else if temporary {
            RateDecision { result: RateLimitResult { blocked: true, reason: Some(BlockReason::TemporaryBanned) }, ban_client: false }
        } else {
            RateDecision { result: RateLimitResult { blocked: false, reason: None }, ban_client: false }
        }
    }

    /// Garbage collection: drops request times more than two whole seconds
    /// old and tells whether the window still holds any.
    pub fn collect(&mut self, now: u64) -> (keep: bool)
        ensures
            final(self).times() == drop_collectable(old(self).times(), now),
            keep == (final(self).times().len() > 0),
    {
        self.drop_collectable_front(now);
        self.timestamps.len() > 0
    }

    fn drop_collectable_front(&mut self, now: u64)
        ensures
            final(self).times() == drop_collectable(old(self).times(), now),
    {
        while self.timestamps.len() > 0
            invariant
                drop_collectable(self.times(), now) == drop_collectable(old(self).times(), now),
            decreases self.timestamps@.len(),
        {
            let front = self.timestamps[0];
            if now >= front && (now - front) / NANOS_PER_SEC > 2 {
                let ghost before = self.times();
                self.timestamps.pop_front();
                assert(self.times() =~= before.drop_first());
            } else {
                return;
            }
        }
    }
}

/// The concurrent map of request windows by client address.
pub type WindowTable = DashMap<String, RateWindow>;

/// The request times held by a concurrent map, by client address.
pub uninterp spec fn window_table(m: WindowTable) -> Map<Seq<char>, Seq<u64>>;

/// An empty map (`DashMap::new`).
#[verifier::external_body]
fn windows_new() -> (fresh: WindowTable)
    ensures
        window_table(fresh).dom() == Set::<Seq<char>>::empty(),
{
    DashMap::new()
}

/// Takes the window of an address out of the map (`DashMap::remove`).
#[verifier::external_body]
fn windows_take(m: &mut WindowTable, k: &str) -> (r: Option<RateWindow>)
    ensures
        window_table(*final(m)) == window_table(*old(m)).remove(k@),
        match r {
            Some(w) => window_table(*old(m)).dom().contains(k@) && w.times() == window_table(*old(m))[k@],
            None => !window_table(*old(m)).dom().contains(k@),
        },
{
    m.remove(k).map(|(_, w)| w)
}

/// Stores the window of an address, replacing any (`DashMap::insert`).
#[verifier::external_body]
fn windows_insert(m: &mut WindowTable, k: String, w: RateWindow)
    ensures
        window_table(*final(m)) == window_table(*old(m)).insert(k@, w.times()),
{
    m.insert(k, w);
}

/// The number of addresses with a window (`DashMap::len`).
#[verifier::external_body]
fn windows_len(m: &WindowTable) -> (n: usize)
    ensures
        n == window_table(*m).dom().len(),
{
    m.len()
}

/// The table after garbage collection at `now`: each window loses its
/// request times older than the collection horizon, and windows left empty
/// are dropped.
pub open spec fn collected(t: Map<Seq<char>, Seq<u64>>, now: u64) -> Map<Seq<char>, Seq<u64>> {
    Map::new(
        |k: Seq<char>| t.dom().contains(k) && drop_collectable(t[k], now).len() > 0,
        |k: Seq<char>| drop_collectable(t[k], now),
    )
}

/// Collects every window at `now`, keeping those that still hold request
/// times (`DashMap::retain`, with [`RateWindow::collect`] deciding).
#[verifier::external_body]
fn windows_collect(m: &mut WindowTable, now: u64)
    ensures
        window_table(*final(m)) == collected(window_table(*old(m)), now),
{
    m.retain(|_, w| w.collect(now));
}

/// The window of an address, empty when it has none.
pub open spec fn window_of_client(t: Map<Seq<char>, Seq<u64>>, ip: Seq<char>) -> Seq<u64> {
    if t.dom().contains(ip) { t[ip] } else { Seq::empty() }
}

/// The request windows of all clients.
pub struct RateLimiter {
    windows: WindowTable,
}

impl RateLimiter {
    /// The request times of each client with a window.
    pub closed spec fn table(&self) -> Map<Seq<char>, Seq<u64>> {
        window_table(self.windows)
    }

    /// No client has a window yet.
    pub fn new() -> (r: Self)
        ensures
            r.table() == Map::<Seq<char>, Seq<u64>>::empty(),
    {
        let r = RateLimiter { windows: windows_new() };
        assert(r.table() =~= Map::<Seq<char>, Seq<u64>>::empty());
        r
    }

    /// Number of clients with a window.
    pub fn len(&self) -> (n: usize)
        ensures
            n == self.table().dom().len(),
    {
        windows_len(&self.windows)
    }

    /// Decides one request of `ip` at `now` (see [`RateWindow::decide`]). A
    /// client banned without expiry flag leaves the table as it is; otherwise
    /// the client's window, created empty when it had none, becomes the one
    /// that the decision leaves.
    pub fn check_rate_limit(&mut self, ip: &str, now: u64, banned: bool, temporary: bool, per_sec: i64, threshold: i64)
        -> (d: RateDecision)
        ensures
            ({
                let r = decide_spec(window_of_client(old(self).table(), ip@), now, banned, temporary, per_sec, threshold);
                &&& d.result == r.0
                &&& d.ban_client == r.1
                &&& final(self).table() == if banned && !temporary {
                    old(self).table()
                } else {
                    old(self).table().insert(ip@, r.2)
                }
            }),
    {
        if banned && !temporary {
            return RateDecision { result: RateLimitResult { blocked: true, reason: Some(BlockReason::Banned) }, ban_client: false };
        }
        let ghost t0 = self.table();
        let mut w = match windows_take(&mut self.windows, ip) {
            Some(w) => w,
            None => RateWindow::new(),
        };
        let d = w.decide(now, banned, temporary, per_sec, threshold);
        windows_insert(&mut self.windows, ip.to_string(), w);
        assert(self.table() =~= t0.insert(ip@, decide_spec(window_of_client(t0, ip@), now, banned, temporary, per_sec, threshold).2));
        d
    }

    /// Garbage collection at `now`: drops request times more than two whole
    /// seconds old, and the clients whose window is left empty.
    pub fn collect_garbage(&mut self, now: u64)
        ensures
            final(self).table() == collected(old(self).table(), now),
    {
        windows_collect(&mut self.windows, now);
    }
}

proof fn lemma_drop_expired_len(s: Seq<u64>, now: u64)
    ensures
        drop_expired(s, now).len() <= s.len(),
    decreases s.len(),
{
    if s.len() > 0 && outside_window(s[0], now) {
        lemma_drop_expired_len(s.drop_first(), now);
    }
}

/// The window never holds more requests than the ban threshold: a request
/// that would go beyond it bans the client and clears the window.
pub proof fn law_window_bounded_by_threshold(
    s: Seq<u64>,
    now: u64,
    banned: bool,
    temporary: bool,
    per_sec: i64,
    threshold: i64,
)
    requires
        s.len() <= threshold as usize,
    ensures
        decide_spec(s, now, banned, temporary, per_sec, threshold).2.len() <= threshold as usize,
{
    lemma_drop_expired_len(s, now);
}

/// A request passes only if, counting it, the last second holds at most
/// `per_sec` requests and the client is not banned in any way.
pub proof fn law_passing_request_within_rate(
    s: Seq<u64>,
    now: u64,
    banned: bool,
    temporary: bool,
    per_sec: i64,
    threshold: i64,
)
    ensures
        !decide_spec(s, now, banned, temporary, per_sec, threshold).0.blocked ==> {
            &&& !banned && !temporary
            &&& decide_spec(s, now, banned, temporary, per_sec, threshold).2 == drop_expired(s, now).push(now)
            &&& drop_expired(s, now).len() + 1 <= per_sec as usize
        },
        decide_spec(s, now, banned, temporary, per_sec, threshold).1
            ==> decide_spec(s, now, banned, temporary, per_sec, threshold).0.reason == Some(BlockReason::Banned),
{
}

} // verus!
