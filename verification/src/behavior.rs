//! Per-client behaviour profiling: the requests of each address within a
//! sliding window, kept in a concurrent map, and the counts that scoring
//! reads from them. Times are Unix nanoseconds, read by the caller.
use vstd::prelude::*;
use dashmap::DashMap;
use crate::text::{contains_text, owned_text};

verus! {

/// How behaviour profiles are kept.
#[derive(Debug, Clone, Copy)]
pub struct BehaviorProfilingConfig {
    pub enabled: bool,
    pub window_seconds: u64,
    pub profile_ttl_seconds: u64,
    pub gc_interval_seconds: u64,
    pub max_profiles: usize,
}

impl Default for BehaviorProfilingConfig {
    /// Enabled, a five-minute window, profiles kept an hour, collected
    /// every ten minutes, at most a hundred thousand.
    fn default() -> (c: Self)
        ensures
            c.enabled,
            c.window_seconds == 300,
            c.profile_ttl_seconds == 3600,
            c.gc_interval_seconds == 600,
            c.max_profiles == 100000,
    {
        BehaviorProfilingConfig {
            enabled: true,
            window_seconds: 300,
            profile_ttl_seconds: 3600,
            gc_interval_seconds: 600,
            max_profiles: 100000,
        }
    }
}

/// One recorded request: when, the path, the status and the user agent.
#[derive(Debug, Clone)]
pub struct RequestRecord {
    pub timestamp: i64,
    pub url: String,
    pub status_code: u16,
    pub user_agent: String,
}

/// What is recorded of one address: its requests in the window (oldest
/// first), the distinct paths and user agents seen, the failed requests and
/// when tracking began.
#[derive(Debug, Clone)]
pub struct IPBehaviorMetrics {
    pub requests: Vec<RequestRecord>,
    pub unique_paths: Vec<String>,
    pub error_count: u64,
    pub user_agents: Vec<String>,
    pub window_start: i64,
}

/// A recorded request's contents.
pub open spec fn record_view(r: RequestRecord) -> (i64, Seq<char>, u16, Seq<char>) {
    (r.timestamp, r.url@, r.status_code, r.user_agent@)
}

/// The contents of an address's metrics.
pub struct MetricsView {
    pub requests: Seq<(i64, Seq<char>, u16, Seq<char>)>,
    pub paths: Seq<Seq<char>>,
    pub error_count: u64,
    pub agents: Seq<Seq<char>>,
    pub window_start: i64,
}

/// The texts of a list of strings.
pub open spec fn texts(v: Seq<String>) -> Seq<Seq<char>> {
    v.map_values(|s: String| s@)
}

/// The contents of an address's metrics.
pub open spec fn metrics_view(m: IPBehaviorMetrics) -> MetricsView {
    MetricsView {
        requests: m.requests@.map_values(|r: RequestRecord| record_view(r)),
        paths: texts(m.unique_paths@),
        error_count: m.error_count,
        agents: texts(m.user_agents@),
        window_start: m.window_start,
    }
}

/// The concurrent map of metrics by address.
pub type MetricsTable = DashMap<String, IPBehaviorMetrics>;

/// The metrics held by a concurrent map, by address.
pub uninterp spec fn metrics_table(m: MetricsTable) -> Map<Seq<char>, MetricsView>;

/// An empty map (`DashMap::new`).
#[verifier::external_body]
fn table_new() -> (fresh: MetricsTable)
    ensures
        metrics_table(fresh).dom() == Set::<Seq<char>>::empty(),
{
    DashMap::new()
}

/// Stores the metrics of an address, replacing any (`DashMap::insert`).
#[verifier::external_body]
fn table_insert(m: &mut MetricsTable, k: String, v: IPBehaviorMetrics)
    ensures
        metrics_table(*final(m)) == metrics_table(*old(m)).insert(k@, metrics_view(v)),
{
    m.insert(k, v);
}

/// Removes the metrics of an address (`DashMap::remove`).
#[verifier::external_body]
fn table_remove(m: &mut MetricsTable, k: &str)
    ensures
        metrics_table(*final(m)) == metrics_table(*old(m)).remove(k@),
{
    m.remove(k);
}

/// A copy of the metrics of an address (`DashMap::get`).
#[verifier::external_body]
fn table_get(m: &MetricsTable, k: &str) -> (r: Option<IPBehaviorMetrics>)
    ensures
        match r {
            Some(v) => metrics_table(*m).dom().contains(k@) && metrics_view(v) == metrics_table(*m)[k@],
            None => !metrics_table(*m).dom().contains(k@),
        },
{
    m.get(k).map(|e| e.value().clone())
}

/// `v` lists the map: every address with its metrics, each address once.
pub open spec fn lists_metrics(v: Seq<(String, IPBehaviorMetrics)>, t: Map<Seq<char>, MetricsView>) -> bool {
    &&& forall|i: int| 0 <= i < v.len() ==> t.dom().contains(#[trigger] v[i].0@) && metrics_view(v[i].1) == t[v[i].0@]
    &&& forall|i: int, j: int| 0 <= i < j < v.len() ==> v[i].0@ != v[j].0@
    &&& forall|k: Seq<char>| t.dom().contains(k) ==> exists|i: int| 0 <= i < v.len() && #[trigger] v[i].0@ == k
}

/// Every address and its metrics, each once, in no particular order
/// (`DashMap::iter`).
#[verifier::external_body]
fn table_entries(m: &MetricsTable) -> (v: Vec<(String, IPBehaviorMetrics)>)
    ensures
        lists_metrics(v@, metrics_table(*m)),
{
    m.iter().map(|e| (e.key().clone(), e.value().clone())).collect()
}

/// The number of addresses (`DashMap::len`).
#[verifier::external_body]
fn table_len(m: &MetricsTable) -> (n: usize)
    ensures
        n == metrics_table(*m).dom().len(),
{
    m.len()
}

/// The length of the window in nanoseconds.
pub open spec fn window_nanos(window_seconds: u64) -> int {
    window_seconds * 1_000_000_000
}

/// The requests without the leading ones older than `cutoff`.
pub open spec fn drop_old(s: Seq<(i64, Seq<char>, u16, Seq<char>)>, cutoff: int) -> Seq<(i64, Seq<char>, u16, Seq<char>)>
    decreases s.len(),
{
    if s.len() > 0 && s[0].0 < cutoff {
        drop_old(s.drop_first(), cutoff)
    } else {
        s
    }
}

/// Metrics after the requests older than the window at `now` left it; with
/// none left, the paths and the error count start over.
pub open spec fn pruned(v: MetricsView, now: i64, window_seconds: u64) -> MetricsView {
    let r = drop_old(v.requests, now - window_nanos(window_seconds));
    if r.len() == 0 {
        MetricsView { requests: r, paths: Seq::empty(), error_count: 0, ..v }
    } else {
        MetricsView { requests: r, ..v }
    }
}

/// `s` with `x` added at the end unless it is there.
pub open spec fn with_unique(s: Seq<Seq<char>>, x: Seq<char>) -> Seq<Seq<char>> {
    if s.contains(x) { s } else { s.push(x) }
}

/// No metrics yet, tracking from `now`.
pub open spec fn fresh_metrics(now: i64) -> MetricsView {
    MetricsView { requests: Seq::empty(), paths: Seq::empty(), error_count: 0, agents: Seq::empty(), window_start: now }
}

/// Metrics after a request at `now` with the given path, status and agent.
pub open spec fn after_request(v: MetricsView, now: i64, window_seconds: u64, url: Seq<char>, status: u16, ua: Seq<char>) -> MetricsView {
    let p = pruned(v, now, window_seconds);
    MetricsView {
        requests: p.requests.push((now, url, status, ua)),
        paths: with_unique(p.paths, url),
        error_count: if status >= 400 { (p.error_count + 1) as u64 } else { p.error_count },
        agents: with_unique(p.agents, ua),
        window_start: p.window_start,
    }
}

/// The time of an address's latest request, which must be before `now` for
/// the address to be evicted.
pub open spec fn evictable(v: MetricsView, now: i64) -> bool {
    v.requests.len() > 0 && v.requests.last().0 < now
}

/// `k` is an evictable address whose latest request is the oldest.
pub open spec fn is_oldest(t: Map<Seq<char>, MetricsView>, k: Seq<char>, now: i64) -> bool {
    &&& t.dom().contains(k)
    &&& evictable(t[k], now)
    &&& forall|j: Seq<char>| t.dom().contains(j) && #[trigger] evictable(t[j], now) ==> t[k].requests.last().0 <= t[j].requests.last().0
}

/// The table after the least recently active address was evicted, if any
/// can be.
pub open spec fn after_eviction(t: Map<Seq<char>, MetricsView>, t2: Map<Seq<char>, MetricsView>, now: i64) -> bool {
    &&& (exists|k: Seq<char>| #[trigger] is_oldest(t, k, now)) ==> exists|k: Seq<char>| #[trigger] is_oldest(t, k, now) && t2 == t.remove(k)
    &&& !(exists|k: Seq<char>| #[trigger] is_oldest(t, k, now)) ==> t2 == t
}

/// A request at `ts` lies within the window at `now`: the whole seconds
/// elapsed (cut toward zero) are at most the window's length.
pub open spec fn within_window(ts: i64, now: i64, window_seconds: u64) -> bool {
    now - ts < (window_seconds + 1) * 1_000_000_000
}

/// Whether an address made a request within the window at `now`.
pub open spec fn has_recent(v: MetricsView, now: i64, window_seconds: u64) -> bool {
    exists|i: int| 0 <= i < v.requests.len() && within_window(#[trigger] v.requests[i].0, now, window_seconds)
}

/// How many of the requests lie within the window at `now`.
pub open spec fn count_recent(s: Seq<(i64, Seq<char>, u16, Seq<char>)>, now: i64, window_seconds: u64) -> nat
    decreases s.len(),
{
    if s.len() == 0 {
        0
    } else {
        count_recent(s.drop_last(), now, window_seconds)
            + if within_window(s.last().0, now, window_seconds) { 1nat } else { 0nat }
    }
}

/// The addresses with a request within the window at `now`.
pub open spec fn active_keys(t: Map<Seq<char>, MetricsView>, now: i64, window_seconds: u64) -> Set<Seq<char>> {
    Set::new(|k: Seq<char>| t.dom().contains(k) && has_recent(t[k], now, window_seconds))
}

/// What scoring reads of an address at a moment.
#[derive(Debug, Clone)]
pub struct MetricsCounts {
    pub request_count: u64,
    pub unique_paths: Vec<String>,
    pub error_count: u64,
    pub user_agents: Vec<String>,
    pub window_start: i64,
}

fn push_unique(v: &mut Vec<String>, s: &str)
    ensures
        texts(final(v)@) == with_unique(texts(old(v)@), s@),
{
    if !contains_text(v, s) {
        let ghost before = texts(v@);
        v.push(owned_text(s));
        assert(texts(v@) =~= before.push(s@));
    }
}

/// Drops the leading requests older than `cutoff`.
fn drop_old_requests(requests: Vec<RequestRecord>, cutoff: i128) -> (out: Vec<RequestRecord>)
    ensures
        out@.map_values(|r: RequestRecord| record_view(r)) == drop_old(requests@.map_values(|r: RequestRecord| record_view(r)), cutoff as int),
{
    let ghost all = requests@.map_values(|r: RequestRecord| record_view(r));
    let mut start: usize = 0;
    assert(all.skip(0) =~= all);
    while start < requests.len() && (requests[start].timestamp as i128) < cutoff
        invariant
            start <= requests@.len(),
            all == requests@.map_values(|r: RequestRecord| record_view(r)),
            drop_old(all, cutoff as int) == drop_old(all.skip(start as int), cutoff as int),
        decreases requests@.len() - start,
    {
        assert(all.skip(start as int).drop_first() =~= all.skip(start + 1));
        start = start + 1;
    }
    let mut out: Vec<RequestRecord> = Vec::new();
    let mut i: usize = start;
    let mut rest = requests;
    let ghost orig = rest@;
    proof {
        assert(all.skip(start as int) =~= orig.skip(start as int).map_values(|r: RequestRecord| record_view(r)));
    }
    while i < rest.len()
        invariant
            start <= i <= rest@.len(),
            rest@ == orig,
            out@.len() == i - start,
            forall|j: int| 0 <= j < out@.len() ==> #[trigger] out@[j] == orig[start + j],
        decreases rest@.len() - i,
    {
        let r = RequestRecord {
            timestamp: rest[i].timestamp,
            url: rest[i].url.clone(),
            status_code: rest[i].status_code,
            user_agent: rest[i].user_agent.clone(),
        };
        proof {
            assert(record_view(r) == record_view(orig[i as int]));
        }
        out.push(r);
        i = i + 1;
    }
    proof {
        let ov = out@.map_values(|r: RequestRecord| record_view(r));
        let sv = all.skip(start as int);
        assert(ov.len() == sv.len());
        assert forall|j: int| 0 <= j < ov.len() implies ov[j] == sv[j] by {
        }
        assert(ov =~= sv);
        if start < orig.len() {
            assert(!(all.skip(start as int)[0].0 < cutoff as int));
        }
    }
    out
}

/// The per-address metrics, behind the concurrent map that only this module reaches.
pub struct MetricsStore {
    map: MetricsTable,
}

impl MetricsStore {
    /// What the map holds.
    pub closed spec fn contents(&self) -> Map<Seq<char>, MetricsView> {
        metrics_table(self.map)
    }
}

/// Collects each address's requests within a sliding window.
pub struct BehaviorMetricsCollector {
    pub metrics: MetricsStore,
    pub config: BehaviorProfilingConfig,
    pub total_requests: u64,
}

impl BehaviorMetricsCollector {
    /// The recorded metrics by address.
    pub open spec fn table(&self) -> Map<Seq<char>, MetricsView> {
        self.metrics.contents()
    }

    /// An empty collector with the given settings.
    pub fn new(config: BehaviorProfilingConfig) -> (c: Self)
        ensures
            c.table().dom() == Set::<Seq<char>>::empty(),
            c.config == config,
            c.total_requests == 0,
    {
        BehaviorMetricsCollector { metrics: MetricsStore { map: table_new() }, config, total_requests: 0 }
    }

    /// Whether a request of `ip` can be counted without the error count
    /// reaching its limit.
    pub fn can_track(&self, ip: &str) -> (b: bool)
        ensures
            b == (self.table().dom().contains(ip@) ==> self.table()[ip@].error_count < u64::MAX),
    {
        match table_get(&self.metrics.map, ip) {
            Some(m) => m.error_count < u64::MAX,
            None => true,
        }
    }
}

fn is_within_window(ts: i64, now: i64, window_seconds: u64) -> (b: bool)
    ensures
        b == within_window(ts, now, window_seconds),
{
    (now as i128 - ts as i128) < (window_seconds as i128 + 1) * 1_000_000_000
}

impl BehaviorMetricsCollector {
    /// Evicts the address whose latest request is the oldest, if any has a
    /// request before `now`.
    fn evict_oldest_profile(&mut self, now: i64)
        ensures
            after_eviction(old(self).table(), final(self).table(), now),
            final(self).config == old(self).config,
            final(self).total_requests == old(self).total_requests,
    {
        let entries = table_entries(&self.metrics.map);
        let ghost t = self.table();
        let mut oldest: Option<usize> = None;
        let mut oldest_time: i64 = now;
        let mut i: usize = 0;
        while i < entries.len()
            invariant
                i <= entries@.len(),
                t == self.table(),
                lists_metrics(entries@, t),
                match oldest {
                    Some(b) => b < i && evictable(metrics_view(entries@[b as int].1), now)
                        && oldest_time == metrics_view(entries@[b as int].1).requests.last().0,
                    None => oldest_time == now,
                },
                forall|l: int| 0 <= l < i && #[trigger] evictable(metrics_view(entries@[l].1), now)
                    ==> oldest_time <= metrics_view(entries@[l].1).requests.last().0,
            decreases entries@.len() - i,
        {
            let reqs = &entries[i].1.requests;
            if reqs.len() > 0 {
                let last = reqs[reqs.len() - 1].timestamp;
                proof {
                    let v = metrics_view(entries@[i as int].1);
                    assert(v.requests.last().0 == last);
                }
                if last < oldest_time {
                    oldest = Some(i);
                    oldest_time = last;
                }
            }
            i = i + 1;
        }
        match oldest {
            Some(b) => {
                let ghost k = entries@[b as int].0@;
                proof {
                    assert(t.dom().contains(k) && t[k] == metrics_view(entries@[b as int].1));
                    assert forall|j: Seq<char>| t.dom().contains(j) && #[trigger] evictable(t[j], now)
                        implies t[k].requests.last().0 <= t[j].requests.last().0 by {
                        let l = choose|l: int| 0 <= l < entries@.len() && #[trigger] entries@[l].0@ == j;
                        assert(metrics_view(entries@[l].1) == t[j]);
                        assert(evictable(metrics_view(entries@[l].1), now));
                    }
                    assert(is_oldest(t, k, now));
                }
                let key = entries[b].0.as_str();
                table_remove(&mut self.metrics.map, key);
            },
            None => {
                proof {
                    assert forall|k: Seq<char>| !#[trigger] is_oldest(t, k, now) by {
                        if is_oldest(t, k, now) {
                            let l = choose|l: int| 0 <= l < entries@.len() && #[trigger] entries@[l].0@ == k;
                            assert(metrics_view(entries@[l].1) == t[k]);
                            assert(evictable(metrics_view(entries@[l].1), now));
                        }
                    }
                }
            },
        }
    }

    /// Records a request of `ip` at `now`: the requests that left the window
    /// are dropped (with none left, the paths and error count start over),
    /// the request is added, its path and agent are noted, and a failure
    /// (status 400 or above) is counted; over the profile limit, the least
    /// recently active address is evicted.
    pub fn track_request(&mut self, ip: &str, url: &str, status_code: u16, user_agent: &str, now: i64)
        requires
            old(self).table().dom().contains(ip@) ==> old(self).table()[ip@].error_count < u64::MAX,
        ensures
            ({
                let base = if old(self).table().dom().contains(ip@) { old(self).table()[ip@] } else { fresh_metrics(now) };
                let t1 = old(self).table().insert(ip@, after_request(base, now, old(self).config.window_seconds, url@, status_code, user_agent@));
                &&& t1.dom().len() <= old(self).config.max_profiles ==> final(self).table() == t1
                &&& t1.dom().len() > old(self).config.max_profiles ==> after_eviction(t1, final(self).table(), now)
            }),
            final(self).config == old(self).config,
            final(self).total_requests == (if old(self).total_requests == u64::MAX { 0 } else { old(self).total_requests + 1 }),
    {
        let base = match table_get(&self.metrics.map, ip) {
            Some(m) => m,
            None => IPBehaviorMetrics {
                requests: Vec::new(),
                unique_paths: Vec::new(),
                error_count: 0,
                user_agents: Vec::new(),
                window_start: now,
            },
        };
        let ghost bv = metrics_view(base);
        proof {
            assert(bv == (if old(self).table().dom().contains(ip@) { old(self).table()[ip@] } else { fresh_metrics(now) })) by {
                if !old(self).table().dom().contains(ip@) {
                    assert(bv.requests =~= Seq::<(i64, Seq<char>, u16, Seq<char>)>::empty());
                    assert(bv.paths =~= Seq::<Seq<char>>::empty());
                    assert(bv.agents =~= Seq::<Seq<char>>::empty());
                }
            }
        }
        let IPBehaviorMetrics { requests, unique_paths, error_count, user_agents, window_start } = base;
        let cutoff: i128 = now as i128 - (self.config.window_seconds as i128) * 1_000_000_000;
        let mut requests = drop_old_requests(requests, cutoff);
        let ghost p = pruned(bv, now, self.config.window_seconds);
        let (mut paths, mut errors) = if requests.len() == 0 {
            (Vec::new(), 0u64)
        } else {
            (unique_paths, error_count)
        };
        proof {
            assert(texts(paths@) =~= p.paths);
            assert(errors == p.error_count);
        }
        let ghost before = requests@.map_values(|r: RequestRecord| record_view(r));
        requests.push(RequestRecord {
            timestamp: now,
            url: owned_text(url),
            status_code,
            user_agent: owned_text(user_agent),
        });
        proof {
            assert(requests@.map_values(|r: RequestRecord| record_view(r)) =~= before.push((now, url@, status_code, user_agent@)));
        }
        push_unique(&mut paths, url);
        let mut agents = user_agents;
        push_unique(&mut agents, user_agent);
        if status_code >= 400 {
            errors = errors + 1;
        }
        let updated = IPBehaviorMetrics { requests, unique_paths: paths, error_count: errors, user_agents: agents, window_start };
        proof {
            assert(metrics_view(updated) == after_request(bv, now, self.config.window_seconds, url@, status_code, user_agent@));
        }
        table_insert(&mut self.metrics.map, owned_text(ip), updated);
        self.total_requests = self.total_requests.wrapping_add(1);
        if table_len(&self.metrics.map) > self.config.max_profiles {
            self.evict_oldest_profile(now);
        }
    }

    /// What scoring reads of `ip` at `now`: the requests within the window,
    /// the paths and agents seen, the failures and when tracking began.
    pub fn get_metrics(&self, ip: &str, now: i64) -> (r: Option<MetricsCounts>)
        ensures
            match r {
                None => !self.table().dom().contains(ip@),
                Some(c) => self.table().dom().contains(ip@)
                    && c.request_count == count_recent(self.table()[ip@].requests, now, self.config.window_seconds)
                    && texts(c.unique_paths@) == self.table()[ip@].paths
                    && c.error_count == self.table()[ip@].error_count
                    && texts(c.user_agents@) == self.table()[ip@].agents
                    && c.window_start == self.table()[ip@].window_start,
            },
    {
        match table_get(&self.metrics.map, ip) {
            None => None,
            Some(m) => {
                let ghost s = metrics_view(m).requests;
                let mut count: u64 = 0;
                let mut i: usize = 0;
                assert(s.take(0) =~= Seq::<(i64, Seq<char>, u16, Seq<char>)>::empty());
                while i < m.requests.len()
                    invariant
                        i <= m.requests@.len(),
                        s == metrics_view(m).requests,
                        count == count_recent(s.take(i as int), now, self.config.window_seconds),
                        count <= i,
                    decreases m.requests@.len() - i,
                {
                    assert(s.take(i + 1).drop_last() =~= s.take(i as int));
                    if is_within_window(m.requests[i].timestamp, now, self.config.window_seconds) {
                        count = count + 1;
                    }
                    i = i + 1;
                }
                assert(s.take(s.len() as int) =~= s);
                let IPBehaviorMetrics { requests: _, unique_paths, error_count, user_agents, window_start } = m;
                Some(MetricsCounts { request_count: count, unique_paths, error_count, user_agents, window_start })
            },
        }
    }

    /// Forgets the addresses without a request within the window at `now`;
    /// returns how many were forgotten.
    pub fn cleanup_expired_metrics(&mut self, now: i64) -> (n: usize)
        ensures
            final(self).table() == old(self).table().restrict(active_keys(old(self).table(), now, old(self).config.window_seconds)),
            exists|ks: Seq<Seq<char>>| #![trigger ks.len()] ks.len() == n && ks.no_duplicates()
                && forall|k: Seq<char>| ks.contains(k) <==> (old(self).table().dom().contains(k)
                    && !active_keys(old(self).table(), now, old(self).config.window_seconds).contains(k)),
            final(self).config == old(self).config,
            final(self).total_requests == old(self).total_requests,
    {
        let entries = table_entries(&self.metrics.map);
        let ghost t = self.table();
        let ghost w = self.config.window_seconds;
        let ghost act = active_keys(t, now, w);
        let mut n: usize = 0;
        let ghost mut ks: Seq<Seq<char>> = Seq::empty();
        let mut i: usize = 0;
        while i < entries.len()
            invariant
                i <= entries@.len(),
                lists_metrics(entries@, t),
                act == active_keys(t, now, w),
                w == self.config.window_seconds,
                self.config == old(self).config,
                self.total_requests == old(self).total_requests,
                self.table() == t.remove_keys(Set::new(|k: Seq<char>| exists|j: int| 0 <= j < i && #[trigger] entries@[j].0@ == k && !act.contains(k))),
                n == ks.len(),
                n <= i,
                ks.no_duplicates(),
                forall|k: Seq<char>| ks.contains(k) <==> (exists|j: int| 0 <= j < i && #[trigger] entries@[j].0@ == k && !act.contains(k)),
            decreases entries@.len() - i,
        {
            let ghost key = entries@[i as int].0@;
            let ghost v = metrics_view(entries@[i as int].1);
            proof {
                assert(t.dom().contains(key) && t[key] == v);
            }
            let reqs = &entries[i].1.requests;
            let mut recent = false;
            let mut j: usize = 0;
            while j < reqs.len()
                invariant
                    j <= reqs@.len(),
                    w == self.config.window_seconds,
                    v.requests == reqs@.map_values(|r: RequestRecord| record_view(r)),
                    recent == exists|l: int| 0 <= l < j && within_window(#[trigger] v.requests[l].0, now, w),
                decreases reqs@.len() - j,
            {
                assert(v.requests[j as int].0 == reqs@[j as int].timestamp);
                let hit = is_within_window(reqs[j].timestamp, now, self.config.window_seconds);
                proof {
                    if hit {
                        assert(within_window(v.requests[j as int].0, now, w));
                    } else {
                        assert forall|l: int| 0 <= l < j + 1 && within_window(#[trigger] v.requests[l].0, now, w) implies l < j by {}
                    }
                }
                if hit {
                    recent = true;
                }
                j = j + 1;
            }
            proof {
                assert(recent == has_recent(v, now, w));
                assert(act.contains(key) == recent);
            }
            let ghost old_removed = Set::new(|k: Seq<char>| exists|j: int| 0 <= j < i && #[trigger] entries@[j].0@ == k && !act.contains(k));
            let ghost new_removed = Set::new(|k: Seq<char>| exists|j: int| 0 <= j < i + 1 && #[trigger] entries@[j].0@ == k && !act.contains(k));
            if !recent {
                table_remove(&mut self.metrics.map, entries[i].0.as_str());
                proof {
                    assert(!ks.contains(key)) by {
                        if ks.contains(key) {
                            let j2 = choose|j2: int| 0 <= j2 < i && #[trigger] entries@[j2].0@ == key && !act.contains(key);
                            assert(entries@[j2].0@ != entries@[i as int].0@);
                        }
                    }
                    let old_ks = ks;
                    ks = ks.push(key);
                    assert forall|k: Seq<char>| ks.contains(k) <==> (exists|j2: int| 0 <= j2 < i + 1 && #[trigger] entries@[j2].0@ == k && !act.contains(k)) by {
                        if ks.contains(k) && k != key {
                            assert(old_ks.contains(k)) by {
                                let x = choose|x: int| 0 <= x < ks.len() && ks[x] == k;
                                assert(x < old_ks.len());
                                assert(old_ks[x] == k);
                            }
                        }
                        if k == key {
                            assert(entries@[i as int].0@ == k);
                            assert(ks[ks.len() - 1] == k);
                        }
                        if exists|j2: int| 0 <= j2 < i + 1 && #[trigger] entries@[j2].0@ == k && !act.contains(k) {
                            if k != key {
                                let j2 = choose|j2: int| 0 <= j2 < i + 1 && #[trigger] entries@[j2].0@ == k && !act.contains(k);
                                assert(j2 < i);
                                assert(old_ks.contains(k));
                                let x = choose|x: int| 0 <= x < old_ks.len() && old_ks[x] == k;
                                assert(ks[x] == k);
                            }
                        }
                    }
                    assert(new_removed =~= old_removed.insert(key)) by {
                        assert forall|k: Seq<char>| new_removed.contains(k) implies old_removed.insert(k).contains(k) || k == key by {}
                        assert forall|k: Seq<char>| new_removed.contains(k) && k != key implies old_removed.contains(k) by {
                            let j2 = choose|j2: int| 0 <= j2 < i + 1 && #[trigger] entries@[j2].0@ == k && !act.contains(k);
                            assert(j2 < i);
                        }
                        assert(new_removed.contains(key)) by {
                            assert(entries@[i as int].0@ == key);
                        }
                    }
                    assert(self.table() =~= t.remove_keys(new_removed));
                }
                n = n + 1;
            } else {
                proof {
                    assert(new_removed =~= old_removed) by {
                        assert forall|k: Seq<char>| new_removed.contains(k) implies old_removed.contains(k) by {
                            let j2 = choose|j2: int| 0 <= j2 < i + 1 && #[trigger] entries@[j2].0@ == k && !act.contains(k);
                            if j2 == i {
                                assert(act.contains(key));
                            }
                        }
                    }
                    assert forall|k: Seq<char>| ks.contains(k) <==> (exists|j2: int| 0 <= j2 < i + 1 && #[trigger] entries@[j2].0@ == k && !act.contains(k)) by {
                        if exists|j2: int| 0 <= j2 < i + 1 && #[trigger] entries@[j2].0@ == k && !act.contains(k) {
                            assert(new_removed.contains(k));
                            assert(old_removed.contains(k));
                        }
                    }
                }
            }
            i = i + 1;
        }
        proof {
            let removed = Set::new(|k: Seq<char>| exists|j: int| 0 <= j < entries@.len() && #[trigger] entries@[j].0@ == k && !act.contains(k));
            assert forall|k: Seq<char>| removed.contains(k) <==> (t.dom().contains(k) && !act.contains(k)) by {
                if t.dom().contains(k) && !act.contains(k) {
                    let j = choose|j: int| 0 <= j < entries@.len() && #[trigger] entries@[j].0@ == k;
                    assert(entries@[j].0@ == k);
                }
            }
            assert(t.remove_keys(removed) =~= t.restrict(act));
        }
        n
    }

    /// The requests counted since the collector started (wrapping at the
    /// limit).
    pub fn get_total_requests(&self) -> (n: u64)
        ensures
            n == self.total_requests,
    {
        self.total_requests
    }

    /// The number of addresses tracked.
    pub fn get_active_ip_count(&self) -> (n: usize)
        ensures
            n == self.table().dom().len(),
    {
        table_len(&self.metrics.map)
    }
}

/// Eviction keeps the collector within its limit: when one address too
/// many is tracked and some address was last seen before `now`, exactly one
/// address leaves.
pub proof fn law_eviction_restores_limit(t: Map<Seq<char>, MetricsView>, t2: Map<Seq<char>, MetricsView>, now: i64, max_profiles: usize)
    requires
        t.dom().finite(),
        t.dom().len() == max_profiles + 1,
        after_eviction(t, t2, now),
        exists|k: Seq<char>| t.dom().contains(k) && #[trigger] evictable(t[k], now),
    ensures
        t2.dom().len() == max_profiles,
{
    let k0 = choose|k: Seq<char>| t.dom().contains(k) && #[trigger] evictable(t[k], now);
    assert(exists|k: Seq<char>| #[trigger] is_oldest(t, k, now)) by {
        lemma_oldest_exists(t, now, k0);
    }
    let k = choose|k: Seq<char>| #[trigger] is_oldest(t, k, now) && t2 == t.remove(k);
    assert(t2.dom() =~= t.dom().remove(k));
}

/// A finite table with an evictable address has an oldest one.
proof fn lemma_oldest_exists(t: Map<Seq<char>, MetricsView>, now: i64, k0: Seq<char>)
    requires
        t.dom().finite(),
        t.dom().contains(k0),
        evictable(t[k0], now),
    ensures
        exists|k: Seq<char>| #[trigger] is_oldest(t, k, now),
    decreases t.dom().len(),
{
    let rest = t.remove(k0);
    if exists|j: Seq<char>| rest.dom().contains(j) && #[trigger] evictable(rest[j], now) {
        let j = choose|j: Seq<char>| rest.dom().contains(j) && #[trigger] evictable(rest[j], now);
        assert(rest.dom() =~= t.dom().remove(k0));
        lemma_oldest_exists(rest, now, j);
        let m = choose|m: Seq<char>| #[trigger] is_oldest(rest, m, now);
        if t[k0].requests.last().0 <= t[m].requests.last().0 {
            assert forall|x: Seq<char>| t.dom().contains(x) && #[trigger] evictable(t[x], now)
                implies t[k0].requests.last().0 <= t[x].requests.last().0 by {
                if x != k0 {
                    assert(rest.dom().contains(x) && evictable(rest[x], now));
                }
            }
            assert(is_oldest(t, k0, now));
        } else {
            assert forall|x: Seq<char>| t.dom().contains(x) && #[trigger] evictable(t[x], now)
                implies t[m].requests.last().0 <= t[x].requests.last().0 by {
                if x != k0 {
                    assert(rest.dom().contains(x) && evictable(rest[x], now));
                }
            }
            assert(is_oldest(t, m, now));
        }
    } else {
        assert forall|x: Seq<char>| t.dom().contains(x) && #[trigger] evictable(t[x], now)
            implies t[k0].requests.last().0 <= t[x].requests.last().0 by {
            if x != k0 {
                assert(rest.dom().contains(x) && evictable(rest[x], now));
            }
        }
        assert(is_oldest(t, k0, now));
    }
}

} // verus!
