//! Threat intelligence shared between cluster nodes: the events other nodes
//! reported, kept in a bounded log, and the addresses they blocked, kept
//! until their block runs out.
use vstd::prelude::*;
use dashmap::DashMap;
use crate::clock::random_uuid_string;

verus! {

/// Events kept before the oldest half is dropped.
pub const MAX_THREAT_EVENTS: usize = 1000;

/// Seconds an address reported by another node stays blocked.
pub const IP_BLOCKLIST_TTL_SECS: i64 = 3600;

/// An attack that a node saw. The time is in Unix nanoseconds.
#[derive(Debug, Clone)]
pub struct ThreatEvent {
    pub id: String,
    pub ip: String,
    pub attack_type: String,
    pub severity: String,
    pub timestamp: i64,
    pub source_node_id: String,
    pub correlation_id: String,
}

/// The contents of a threat event.
pub struct EventView {
    pub id: Seq<char>,
    pub ip: Seq<char>,
    pub attack_type: Seq<char>,
    pub severity: Seq<char>,
    pub timestamp: i64,
    pub source_node_id: Seq<char>,
    pub correlation_id: Seq<char>,
}

/// The contents of a threat event.
pub open spec fn event_view(e: ThreatEvent) -> EventView {
    EventView {
        id: e.id@,
        ip: e.ip@,
        attack_type: e.attack_type@,
        severity: e.severity@,
        timestamp: e.timestamp,
        source_node_id: e.source_node_id@,
        correlation_id: e.correlation_id@,
    }
}

/// A blocked address and when (Unix seconds) its block runs out.
#[derive(Debug, Clone)]
pub struct BlockedIPEntry {
    pub ip: String,
    pub expires_at: i64,
}

/// The contents of a block entry.
pub open spec fn block_view(b: BlockedIPEntry) -> (Seq<char>, i64) {
    (b.ip@, b.expires_at)
}

impl ThreatEvent {
    /// A new event reported by `source_node_id` at `now`, with fresh ids.
    pub fn new(ip: String, attack_type: String, severity: String, source_node_id: String, now: i64) -> (e: Self)
        ensures
            e.ip == ip,
            e.attack_type == attack_type,
            e.severity == severity,
            e.source_node_id == source_node_id,
            e.timestamp == now,
            e.id@.len() == 36,
            e.correlation_id@.len() == 36,
    {
        ThreatEvent {
            id: random_uuid_string(),
            ip,
            attack_type,
            severity,
            timestamp: now,
            source_node_id,
            correlation_id: random_uuid_string(),
        }
    }
}

fn copy_event(e: &ThreatEvent) -> (c: ThreatEvent)
    ensures
        event_view(c) == event_view(*e),
{
    ThreatEvent {
        id: e.id.clone(),
        ip: e.ip.clone(),
        attack_type: e.attack_type.clone(),
        severity: e.severity.clone(),
        timestamp: e.timestamp,
        source_node_id: e.source_node_id.clone(),
        correlation_id: e.correlation_id.clone(),
    }
}

/// The concurrent map of block entries by address.
pub type BlockTable = DashMap<String, BlockedIPEntry>;

/// The concurrent map of events by id.
pub type EventTable = DashMap<String, ThreatEvent>;

/// The block entries held by a concurrent map, by address.
pub uninterp spec fn block_table(m: BlockTable) -> Map<Seq<char>, (Seq<char>, i64)>;

/// The events held by a concurrent map, by id.
pub uninterp spec fn event_table(m: EventTable) -> Map<Seq<char>, EventView>;

/// An empty block map (`DashMap::new`).
#[verifier::external_body]
fn blocks_new() -> (fresh: BlockTable)
    ensures
        block_table(fresh).dom() == Set::<Seq<char>>::empty(),
{
    DashMap::new()
}

/// Stores a block entry, replacing any (`DashMap::insert`).
#[verifier::external_body]
fn blocks_insert(m: &mut BlockTable, k: String, v: BlockedIPEntry)
    ensures
        block_table(*final(m)) == block_table(*old(m)).insert(k@, block_view(v)),
{
    m.insert(k, v);
}

/// Removes a block entry (`DashMap::remove`).
#[verifier::external_body]
fn blocks_remove(m: &mut BlockTable, k: &str)
    ensures
        block_table(*final(m)) == block_table(*old(m)).remove(k@),
{
    m.remove(k);
}

/// Every address and its block entry, each once, in no particular order
/// (`DashMap::iter`).
#[verifier::external_body]
fn blocks_entries(m: &BlockTable) -> (v: Vec<(String, BlockedIPEntry)>)
    ensures
        forall|i: int| 0 <= i < v@.len() ==> block_table(*m).dom().contains(#[trigger] v@[i].0@)
            && block_view(v@[i].1) == block_table(*m)[v@[i].0@],
        forall|i: int, j: int| 0 <= i < j < v@.len() ==> v@[i].0@ != v@[j].0@,
        forall|k: Seq<char>| block_table(*m).dom().contains(k) ==> exists|i: int| 0 <= i < v@.len() && #[trigger] v@[i].0@ == k,
{
    m.iter().map(|e| (e.key().clone(), e.value().clone())).collect()
}

/// The number of block entries (`DashMap::len`).
#[verifier::external_body]
fn blocks_len(m: &BlockTable) -> (n: usize)
    ensures
        n == block_table(*m).dom().len(),
{
    m.len()
}

/// An empty event map (`DashMap::new`).
#[verifier::external_body]
fn events_new() -> (fresh: EventTable)
    ensures
        event_table(fresh).dom() == Set::<Seq<char>>::empty(),
{
    DashMap::new()
}

/// Stores an event, replacing any with its id (`DashMap::insert`).
#[verifier::external_body]
fn events_insert(m: &mut EventTable, k: String, v: ThreatEvent)
    ensures
        event_table(*final(m)) == event_table(*old(m)).insert(k@, event_view(v)),
{
    m.insert(k, v);
}

/// Removes an event (`DashMap::remove`).
#[verifier::external_body]
fn events_remove(m: &mut EventTable, k: &str)
    ensures
        event_table(*final(m)) == event_table(*old(m)).remove(k@),
{
    m.remove(k);
}

/// `v` lists the events: every id with its event, each id once.
pub open spec fn lists_events(v: Seq<(String, ThreatEvent)>, t: Map<Seq<char>, EventView>) -> bool {
    &&& forall|i: int| 0 <= i < v.len() ==> t.dom().contains(#[trigger] v[i].0@) && event_view(v[i].1) == t[v[i].0@]
    &&& forall|i: int, j: int| 0 <= i < j < v.len() ==> v[i].0@ != v[j].0@
    &&& forall|k: Seq<char>| t.dom().contains(k) ==> exists|i: int| 0 <= i < v.len() && #[trigger] v[i].0@ == k
}

/// Every id and its event, each once, in no particular order (`DashMap::iter`).
#[verifier::external_body]
fn events_entries(m: &EventTable) -> (v: Vec<(String, ThreatEvent)>)
    ensures
        lists_events(v@, event_table(*m)),
{
    m.iter().map(|e| (e.key().clone(), e.value().clone())).collect()
}

/// The number of events (`DashMap::len`).
#[verifier::external_body]
fn events_len(m: &EventTable) -> (n: usize)
    ensures
        n == event_table(*m).dom().len(),
{
    m.len()
}

/// The block entries, behind the concurrent map that only this module reaches.
pub struct BlockStore {
    map: BlockTable,
}

impl BlockStore {
    /// What the map holds.
    pub closed spec fn contents(&self) -> Map<Seq<char>, (Seq<char>, i64)> {
        block_table(self.map)
    }

    /// The number of entries.
    pub fn len(&self) -> (n: usize)
        ensures
            n == self.contents().dom().len(),
    {
        blocks_len(&self.map)
    }
}

/// The logged events, behind the concurrent map that only this module reaches.
pub struct EventStore {
    map: EventTable,
}

impl EventStore {
    /// What the map holds.
    pub closed spec fn contents(&self) -> Map<Seq<char>, EventView> {
        event_table(self.map)
    }

    /// The number of entries.
    pub fn len(&self) -> (n: usize)
        ensures
            n == self.contents().dom().len(),
    {
        events_len(&self.map)
    }
}

/// Shared threat intelligence: blocked addresses and the event log.
pub struct ThreatIntelligenceShare {
    pub local_blocklist: BlockStore,
    pub event_log: EventStore,
    pub event_count: usize,
}

impl ThreatIntelligenceShare {
    /// The block entries by address.
    pub open spec fn blocks(&self) -> Map<Seq<char>, (Seq<char>, i64)> {
        self.local_blocklist.contents()
    }

    /// The logged events by id.
    pub open spec fn events(&self) -> Map<Seq<char>, EventView> {
        self.event_log.contents()
    }

    /// Nothing blocked, nothing logged.
    pub fn new() -> (s: Self)
        ensures
            s.blocks().dom() == Set::<Seq<char>>::empty(),
            s.events().dom() == Set::<Seq<char>>::empty(),
            s.event_count == 0,
    {
        ThreatIntelligenceShare { local_blocklist: BlockStore { map: blocks_new() }, event_log: EventStore { map: events_new() }, event_count: 0 }
    }

    /// The number of events received (wrapping at the limit).
    pub fn get_event_count(&self) -> (n: usize)
        ensures
            n == self.event_count,
    {
        self.event_count
    }

    /// The number of block entries, expired ones included until the next
    /// listing.
    pub fn get_blocked_ip_count(&self) -> (n: usize)
        ensures
            n == self.blocks().dom().len(),
    {
        blocks_len(&self.local_blocklist.map)
    }
}

/// A listing of events knows the number of ids in the log.
proof fn lemma_events_len(v: Seq<(String, ThreatEvent)>, t: Map<Seq<char>, EventView>)
    requires
        lists_events(v, t),
    ensures
        t.dom().finite(),
        t.dom().len() == v.len(),
{
    let ks = Seq::new(v.len(), |i: int| v[i].0@);
    assert forall|i: int, j: int| 0 <= i < ks.len() && 0 <= j < ks.len() && i != j implies ks[i] != ks[j] by {
        if i < j {
            assert(v[i].0@ != v[j].0@);
        } else {
            assert(v[j].0@ != v[i].0@);
        }
    }
    assert(ks.to_set() =~= t.dom()) by {
        assert forall|k: Seq<char>| t.dom().contains(k) implies ks.to_set().contains(k) by {
            let i = choose|i: int| 0 <= i < v.len() && #[trigger] v[i].0@ == k;
            assert(ks[i] == k);
        }
        assert forall|k: Seq<char>| ks.to_set().contains(k) implies t.dom().contains(k) by {
            let i = choose|i: int| 0 <= i < ks.len() && ks[i] == k;
            assert(t.dom().contains(v[i].0@));
        }
    }
    ks.unique_seq_to_set();
    vstd::seq_lib::seq_to_set_is_finite(ks);
}

/// `out` holds the events of the ids `ks` (each once), newest first, and
/// no event left out is newer than the last one taken.
pub open spec fn newest_first(out: Seq<ThreatEvent>, ks: Seq<Seq<char>>, t: Map<Seq<char>, EventView>) -> bool {
    &&& ks.len() == out.len()
    &&& ks.no_duplicates()
    &&& forall|i: int| 0 <= i < ks.len() ==> t.dom().contains(#[trigger] ks[i]) && event_view(out[i]) == t[ks[i]]
    &&& forall|i: int, j: int| 0 <= i < j < out.len() ==> out[i].timestamp >= out[j].timestamp
    &&& out.len() > 0 ==> forall|k: Seq<char>| t.dom().contains(k) && !ks.contains(k)
        ==> #[trigger] t[k].timestamp <= out[out.len() - 1].timestamp
}

impl ThreatIntelligenceShare {
    /// The `limit` newest events (all, if fewer), newest first.
    pub fn get_recent_events(&self, limit: usize) -> (out: Vec<ThreatEvent>)
        ensures
            self.events().dom().finite(),
            out@.len() == (if limit < self.events().dom().len() { limit as int } else { self.events().dom().len() as int }),
            exists|ks: Seq<Seq<char>>| #[trigger] newest_first(out@, ks, self.events()),
    {
        let entries = events_entries(&self.event_log.map);
        let ghost t = self.events();
        proof {
            lemma_events_len(entries@, t);
        }
        let n = entries.len();
        let k = if limit < n { limit } else { n };
        let mut chosen: Vec<bool> = Vec::new();
        let mut c: usize = 0;
        while c < n
            invariant
                c <= n,
                chosen@.len() == c,
                forall|i: int| 0 <= i < c ==> !#[trigger] chosen@[i],
            decreases n - c,
        {
            chosen.push(false);
            c = c + 1;
        }
        let mut out: Vec<ThreatEvent> = Vec::new();
        let ghost mut idx: Seq<int> = Seq::empty();
        let mut r: usize = 0;
        while r < k
            invariant
                k <= n,
                n == entries@.len(),
                lists_events(entries@, t),
                r <= k,
                chosen@.len() == n,
                out@.len() == r,
                idx.len() == r,
                forall|j: int| 0 <= j < r ==> 0 <= #[trigger] idx[j] < n,
                forall|a: int, b: int| 0 <= a < r && 0 <= b < r && a != b ==> idx[a] != idx[b],
                forall|i: int| 0 <= i < n ==> (#[trigger] chosen@[i] <==> idx.contains(i)),
                forall|j: int| 0 <= j < r ==> event_view(#[trigger] out@[j]) == event_view(entries@[idx[j]].1),
                forall|a: int, b: int| 0 <= a < b < r ==> out@[a].timestamp >= out@[b].timestamp,
                forall|j: int, i: int| 0 <= j < r && 0 <= i < n && !chosen@[i]
                    ==> #[trigger] entries@[i].1.timestamp <= #[trigger] out@[j].timestamp,
            decreases k - r,
        {
            let mut best: usize = n;
            let mut i: usize = 0;
            while i < n
                invariant
                    n == entries@.len(),
                    chosen@.len() == n,
                    i <= n,
                    best == n || (best < i && !chosen@[best as int]),
                    forall|l: int| #![trigger chosen@[l]] 0 <= l < i && !chosen@[l] ==> best < n
                        && entries@[l].1.timestamp <= entries@[best as int].1.timestamp,
                    r < k && k <= n,
                    idx.len() == r,
                    forall|x: int| 0 <= x < n ==> (#[trigger] chosen@[x] <==> idx.contains(x)),
                    forall|j: int| 0 <= j < r ==> 0 <= #[trigger] idx[j] < n,
                    forall|a: int, b: int| 0 <= a < r && 0 <= b < r && a != b ==> idx[a] != idx[b],
                decreases n - i,
            {
                let ghost old_best = best;
                if !chosen[i] {
                    if best == n || entries[i].1.timestamp > entries[best].1.timestamp {
                        best = i;
                    }
                }
                proof {
                    assert forall|l: int| #![trigger chosen@[l]] 0 <= l < i + 1 && !chosen@[l] implies best < n
                        && entries@[l].1.timestamp <= entries@[best as int].1.timestamp by {
                        if l < i {
                            assert(entries@[l].1.timestamp <= entries@[old_best as int].1.timestamp);
                        }
                    }
                }
                i = i + 1;
            }
            proof {
                lemma_free_index(idx, n as int);
                let free = choose|x: int| 0 <= x < n && !idx.contains(x);
                assert(!chosen@[free]);
                assert(entries@[free].1.timestamp == entries@[free].1.timestamp);
                assert(best < n);
            }
            let ghost old_idx = idx;
            chosen.set(best, true);
            out.push(copy_event(&entries[best].1));
            proof {
                idx = idx.push(best as int);
                assert forall|x: int| 0 <= x < n implies (#[trigger] chosen@[x] <==> idx.contains(x)) by {
                    if x == best as int {
                        assert(idx[idx.len() - 1] == x);
                    } else {
                        if idx.contains(x) {
                            let y = choose|y: int| 0 <= y < idx.len() && idx[y] == x;
                            assert(y < old_idx.len());
                            assert(old_idx.contains(x));
                        }
                        if old_idx.contains(x) {
                            let y = choose|y: int| 0 <= y < old_idx.len() && old_idx[y] == x;
                            assert(idx[y] == x);
                        }
                    }
                }
                assert forall|a: int, b: int| 0 <= a < r + 1 && 0 <= b < r + 1 && a != b implies idx[a] != idx[b] by {
                    if a == r as int {
                        assert(!old_idx.contains(idx[b]) || true);
                        if idx[a] == idx[b] {
                            assert(old_idx[b] == best as int);
                            assert(old_idx.contains(best as int));
                        }
                    } else if b == r as int {
                        if idx[a] == idx[b] {
                            assert(old_idx[a] == best as int);
                            assert(old_idx.contains(best as int));
                        }
                    }
                }
                assert forall|a: int, b: int| 0 <= a < b < r + 1 implies out@[a].timestamp >= out@[b].timestamp by {
                    if b == r as int {
                        assert(!chosen@[best as int] || true);
                        assert(out@[a].timestamp >= entries@[best as int].1.timestamp) by {
                            assert(!old_idx.contains(best as int));
                        }
                    }
                }
                assert forall|j: int, x: int| 0 <= j < r + 1 && 0 <= x < n && !chosen@[x]
                    implies #[trigger] entries@[x].1.timestamp <= #[trigger] out@[j].timestamp by {
                    if j == r as int {
                        assert(!old_idx.contains(x)) by {
                            if old_idx.contains(x) {
                                let y = choose|y: int| 0 <= y < old_idx.len() && old_idx[y] == x;
                                assert(idx[y] == x);
                                assert(idx.contains(x));
                            }
                        }
                    } else {
                        assert(!old_idx.contains(x)) by {
                            if old_idx.contains(x) {
                                let y = choose|y: int| 0 <= y < old_idx.len() && old_idx[y] == x;
                                assert(idx[y] == x);
                                assert(idx.contains(x));
                            }
                        }
                    }
                }
            }
            r = r + 1;
        }
        proof {
            let ks = Seq::new(r as nat, |j: int| entries@[idx[j]].0@);
            assert forall|a: int, b: int| 0 <= a < ks.len() && 0 <= b < ks.len() && a != b implies ks[a] != ks[b] by {
                let x = idx[a];
                let y = idx[b];
                if x < y {
                    assert(entries@[x].0@ != entries@[y].0@);
                } else {
                    assert(entries@[y].0@ != entries@[x].0@);
                }
            }
            assert forall|j: int| 0 <= j < ks.len() implies t.dom().contains(#[trigger] ks[j]) && event_view(out@[j]) == t[ks[j]] by {
                assert(t.dom().contains(entries@[idx[j]].0@));
            }
            if out@.len() > 0 {
                assert forall|key: Seq<char>| t.dom().contains(key) && !ks.contains(key)
                    implies #[trigger] t[key].timestamp <= out@[out@.len() - 1].timestamp by {
                    let x = choose|x: int| 0 <= x < entries@.len() && #[trigger] entries@[x].0@ == key;
                    assert(!chosen@[x]) by {
                        if chosen@[x] {
                            assert(idx.contains(x));
                            let y = choose|y: int| 0 <= y < idx.len() && idx[y] == x;
                            assert(ks[y] == key);
                        }
                    }
                    assert(event_view(entries@[x].1) == t[key]);
                    assert(entries@[x].1.timestamp <= out@[r - 1].timestamp);
                }
            }
            assert(newest_first(out@, ks, t));
        }
        out
    }
}

/// Fewer than `n` indices leave some index below `n` unused.
proof fn lemma_free_index(idx: Seq<int>, n: int)
    requires
        0 <= idx.len() < n,
    ensures
        exists|x: int| 0 <= x < n && !idx.contains(x),
{
    if forall|x: int| 0 <= x < n ==> idx.contains(x) {
        let s = vstd::set_lib::set_int_range(0, n);
        vstd::set_lib::lemma_int_range(0, n);
        vstd::seq_lib::seq_to_set_is_finite(idx);
        assert(s.subset_of(idx.to_set())) by {
            assert forall|x: int| s.contains(x) implies idx.to_set().contains(x) by {
                assert(idx.contains(x));
            }
        }
        vstd::set_lib::lemma_len_subset(s, idx.to_set());
        idx.lemma_cardinality_of_set();
    }
}

/// The ids among the first `n` entries.
pub open spec fn entry_ids(v: Seq<(String, ThreatEvent)>, n: int) -> Set<Seq<char>> {
    Set::new(|k: Seq<char>| exists|j: int| 0 <= j < n && #[trigger] v[j].0@ == k)
}

/// The log after the event `e` was added to log `t`: when the log is full,
/// `dropped` (half the capacity, or everything if less) leaves it first.
pub open spec fn logged(t: Map<Seq<char>, EventView>, e: EventView, dropped: Seq<Seq<char>>, t2: Map<Seq<char>, EventView>) -> bool {
    if t.dom().len() >= MAX_THREAT_EVENTS {
        &&& dropped.no_duplicates()
        &&& dropped.len() == (if t.dom().len() < MAX_THREAT_EVENTS / 2 { t.dom().len() as int } else { (MAX_THREAT_EVENTS / 2) as int })
        &&& forall|i: int| 0 <= i < dropped.len() ==> t.dom().contains(#[trigger] dropped[i])
        &&& t2 == t.remove_keys(dropped.to_set()).insert(e.id, e)
    } else {
        t2 == t.insert(e.id, e)
    }
}

/// The addresses whose block has not run out at `now`.
pub open spec fn live_blocks(t: Map<Seq<char>, (Seq<char>, i64)>, now: i64) -> Set<Seq<char>> {
    Set::new(|k: Seq<char>| t.dom().contains(k) && !(now > t[k].1))
}

impl ThreatIntelligenceShare {
    /// Adds an event to the log; a full log first drops half its capacity,
    /// the first ids it lists.
    fn log_threat_event(&mut self, event: ThreatEvent)
        ensures
            exists|dropped: Seq<Seq<char>>| #[trigger] logged(old(self).events(), event_view(event), dropped, final(self).events()),
            final(self).event_count == (if old(self).event_count == usize::MAX { 0 } else { (old(self).event_count + 1) as usize }),
            final(self).blocks() == old(self).blocks(),
    {
        let ghost t = self.events();
        let ghost mut dropped: Seq<Seq<char>> = Seq::empty();
        let n = events_len(&self.event_log.map);
        if n >= MAX_THREAT_EVENTS {
            let entries = events_entries(&self.event_log.map);
            proof {
                lemma_events_len(entries@, t);
                assert(t.remove_keys(entry_ids(entries@, 0)) =~= t);
            }
            let take = if entries.len() < MAX_THREAT_EVENTS / 2 { entries.len() } else { MAX_THREAT_EVENTS / 2 };
            let mut i: usize = 0;
            while i < take
                invariant
                    take <= entries@.len(),
                    i <= take,
                    lists_events(entries@, t),
                    self.events() == t.remove_keys(entry_ids(entries@, i as int)),
                    self.local_blocklist == old(self).local_blocklist,
                    self.event_count == old(self).event_count,
                decreases take - i,
            {
                events_remove(&mut self.event_log.map, entries[i].0.as_str());
                proof {
                    assert(entry_ids(entries@, i + 1) =~= entry_ids(entries@, i as int).insert(entries@[i as int].0@)) by {
                        assert forall|k: Seq<char>| entry_ids(entries@, i + 1).contains(k) implies entry_ids(entries@, i as int).insert(entries@[i as int].0@).contains(k) by {
                            let j = choose|j: int| 0 <= j < i + 1 && #[trigger] entries@[j].0@ == k;
                            if j < i {
                                assert(entries@[j].0@ == k);
                            }
                        }
                        assert forall|k: Seq<char>| entry_ids(entries@, i as int).insert(entries@[i as int].0@).contains(k) implies entry_ids(entries@, i + 1).contains(k) by {
                            if k == entries@[i as int].0@ {
                                assert(entries@[i as int].0@ == k);
                            } else {
                                let j = choose|j: int| 0 <= j < i && #[trigger] entries@[j].0@ == k;
                                assert(entries@[j].0@ == k);
                            }
                        }
                    }
                    assert(self.events() =~= t.remove_keys(entry_ids(entries@, i + 1)));
                }
                i = i + 1;
            }
            proof {
                dropped = Seq::new(take as nat, |j: int| entries@[j].0@);
                assert forall|a: int, b: int| 0 <= a < dropped.len() && 0 <= b < dropped.len() && a != b implies dropped[a] != dropped[b] by {
                    if a < b {
                        assert(entries@[a].0@ != entries@[b].0@);
                    } else {
                        assert(entries@[b].0@ != entries@[a].0@);
                    }
                }
                assert(dropped.to_set() =~= entry_ids(entries@, take as int)) by {
                    assert forall|k: Seq<char>| entry_ids(entries@, take as int).contains(k) implies dropped.to_set().contains(k) by {
                        let j = choose|j: int| 0 <= j < take && #[trigger] entries@[j].0@ == k;
                        assert(dropped[j] == k);
                    }
                }
                assert forall|x: int| 0 <= x < dropped.len() implies t.dom().contains(#[trigger] dropped[x]) by {
                    assert(t.dom().contains(entries@[x].0@));
                }
            }
        }
        let ghost before = self.events();
        let key = event.id.clone();
        events_insert(&mut self.event_log.map, key, event);
        self.event_count = self.event_count.wrapping_add(1);
        proof {
            assert(logged(t, event_view(event), dropped, self.events()));
        }
    }

    /// Takes in an event reported by another node at `now` (Unix seconds):
    /// it is logged, and its address is blocked for an hour.
    pub fn receive_threat_event(&mut self, event: &ThreatEvent, now: i64)
        requires
            now <= i64::MAX - IP_BLOCKLIST_TTL_SECS,
        ensures
            exists|dropped: Seq<Seq<char>>| #[trigger] logged(old(self).events(), event_view(*event), dropped, final(self).events()),
            final(self).blocks() == old(self).blocks().insert(event.ip@, (event.ip@, (now + IP_BLOCKLIST_TTL_SECS) as i64)),
            final(self).event_count == (if old(self).event_count == usize::MAX { 0 } else { (old(self).event_count + 1) as usize }),
    {
        self.log_threat_event(copy_event(event));
        let ghost logged_events = self.events();
        let entry = BlockedIPEntry { ip: event.ip.clone(), expires_at: now + IP_BLOCKLIST_TTL_SECS };
        blocks_insert(&mut self.local_blocklist.map, event.ip.clone(), entry);
        proof {
            let d = choose|d: Seq<Seq<char>>| #[trigger] logged(old(self).events(), event_view(*event), d, logged_events);
            assert(self.events() == logged_events);
            assert(logged(old(self).events(), event_view(*event), d, self.events()));
        }
    }

    /// The addresses still blocked at `now` (Unix seconds), each entry once;
    /// the entries that ran out are dropped.
    pub fn get_blocked_ips(&mut self, now: i64) -> (ips: Vec<String>)
        ensures
            final(self).blocks() == old(self).blocks().restrict(live_blocks(old(self).blocks(), now)),
            exists|ks: Seq<Seq<char>>| #![trigger ks.len()] ks.len() == ips@.len() && ks.no_duplicates()
                && (forall|i: int| 0 <= i < ks.len() ==> live_blocks(old(self).blocks(), now).contains(#[trigger] ks[i])
                    && ips@[i]@ == old(self).blocks()[ks[i]].0)
                && (forall|k: Seq<char>| live_blocks(old(self).blocks(), now).contains(k) ==> ks.contains(k)),
            final(self).events() == old(self).events(),
            final(self).event_count == old(self).event_count,
    {
        let entries = blocks_entries(&self.local_blocklist.map);
        let ghost t = self.blocks();
        let ghost live = live_blocks(t, now);
        let mut ips: Vec<String> = Vec::new();
        let ghost mut ks: Seq<Seq<char>> = Seq::empty();
        let mut i: usize = 0;
        while i < entries.len()
            invariant
                i <= entries@.len(),
                live == live_blocks(t, now),
                forall|x: int| 0 <= x < entries@.len() ==> t.dom().contains(#[trigger] entries@[x].0@)
                    && block_view(entries@[x].1) == t[entries@[x].0@],
                forall|x: int, y: int| 0 <= x < y < entries@.len() ==> entries@[x].0@ != entries@[y].0@,
                self.blocks() == t.remove_keys(Set::new(|k: Seq<char>| exists|j: int| 0 <= j < i && #[trigger] entries@[j].0@ == k && !live.contains(k))),
                self.event_log == old(self).event_log,
                self.event_count == old(self).event_count,
                ks.len() == ips@.len(),
                ks.no_duplicates(),
                forall|x: int| 0 <= x < ks.len() ==> live.contains(#[trigger] ks[x]) && ips@[x]@ == t[ks[x]].0,
                forall|k: Seq<char>| ks.contains(k) <==> (exists|j: int| 0 <= j < i && #[trigger] entries@[j].0@ == k && live.contains(k)),
            decreases entries@.len() - i,
        {
            let ghost key = entries@[i as int].0@;
            let ghost old_removed = Set::new(|k: Seq<char>| exists|j: int| 0 <= j < i && #[trigger] entries@[j].0@ == k && !live.contains(k));
            let ghost new_removed = Set::new(|k: Seq<char>| exists|j: int| 0 <= j < i + 1 && #[trigger] entries@[j].0@ == k && !live.contains(k));
            let ghost old_ks = ks;
            proof {
                assert(t.dom().contains(key));
                assert(!old_ks.contains(key)) by {
                    if old_ks.contains(key) {
                        let j = choose|j: int| 0 <= j < i && #[trigger] entries@[j].0@ == key && live.contains(key);
                        assert(entries@[j].0@ != entries@[i as int].0@);
                    }
                }
            }
            if now > entries[i].1.expires_at {
                blocks_remove(&mut self.local_blocklist.map, entries[i].0.as_str());
                proof {
                    assert(!live.contains(key));
                    assert(new_removed =~= old_removed.insert(key)) by {
                        assert forall|k: Seq<char>| new_removed.contains(k) && k != key implies old_removed.contains(k) by {
                            let j = choose|j: int| 0 <= j < i + 1 && #[trigger] entries@[j].0@ == k && !live.contains(k);
                            assert(j < i);
                        }
                        assert(new_removed.contains(key)) by {
                            assert(entries@[i as int].0@ == key);
                        }
                    }
                    assert(self.blocks() =~= t.remove_keys(new_removed));
                    assert forall|k: Seq<char>| ks.contains(k) <==> (exists|j: int| 0 <= j < i + 1 && #[trigger] entries@[j].0@ == k && live.contains(k)) by {
                        if exists|j: int| 0 <= j < i + 1 && #[trigger] entries@[j].0@ == k && live.contains(k) {
                            let j = choose|j: int| 0 <= j < i + 1 && #[trigger] entries@[j].0@ == k && live.contains(k);
                            assert(j < i);
                        }
                    }
                }
            } else {
                ips.push(entries[i].1.ip.clone());
                proof {
                    assert(live.contains(key));
                    ks = ks.push(key);
                    assert(new_removed =~= old_removed) by {
                        assert forall|k: Seq<char>| new_removed.contains(k) implies old_removed.contains(k) by {
                            let j = choose|j: int| 0 <= j < i + 1 && #[trigger] entries@[j].0@ == k && !live.contains(k);
                            if j == i {
                                assert(live.contains(key));
                            }
                        }
                    }
                    assert forall|x: int| 0 <= x < ks.len() implies live.contains(#[trigger] ks[x]) && ips@[x]@ == t[ks[x]].0 by {
                        if x < old_ks.len() {
                            assert(ks[x] == old_ks[x]);
                        }
                    }
                    assert forall|k: Seq<char>| ks.contains(k) <==> (exists|j: int| 0 <= j < i + 1 && #[trigger] entries@[j].0@ == k && live.contains(k)) by {
                        if ks.contains(k) && k != key {
                            let x = choose|x: int| 0 <= x < ks.len() && ks[x] == k;
                            assert(x < old_ks.len());
                            assert(old_ks[x] == k);
                            assert(old_ks.contains(k));
                        }
                        if k == key {
                            assert(entries@[i as int].0@ == k);
                            assert(ks[ks.len() - 1] == k);
                        }
                        if exists|j: int| 0 <= j < i + 1 && #[trigger] entries@[j].0@ == k && live.contains(k) {
                            if k != key {
                                let j = choose|j: int| 0 <= j < i + 1 && #[trigger] entries@[j].0@ == k && live.contains(k);
                                assert(j < i);
                                assert(old_ks.contains(k));
                                let x = choose|x: int| 0 <= x < old_ks.len() && old_ks[x] == k;
                                assert(ks[x] == k);
                            }
                        }
                    }
                }
            }
            i = i + 1;
        }
        proof {
            let removed = Set::new(|k: Seq<char>| exists|j: int| 0 <= j < entries@.len() && #[trigger] entries@[j].0@ == k && !live.contains(k));
            assert forall|k: Seq<char>| removed.contains(k) <==> (t.dom().contains(k) && !live.contains(k)) by {
                if t.dom().contains(k) && !live.contains(k) {
                    let j = choose|j: int| 0 <= j < entries@.len() && #[trigger] entries@[j].0@ == k;
                    assert(entries@[j].0@ == k);
                }
            }
            assert(t.remove_keys(removed) =~= t.restrict(live));
            assert forall|k: Seq<char>| live.contains(k) implies ks.contains(k) by {
                let j = choose|j: int| 0 <= j < entries@.len() && #[trigger] entries@[j].0@ == k;
                assert(entries@[j].0@ == k);
            }
        }
        ips
    }
}

/// The event log never grows past its capacity: a log within capacity is
/// still within capacity after an event is added.
pub proof fn law_event_log_bounded(t: Map<Seq<char>, EventView>, e: EventView, dropped: Seq<Seq<char>>, t2: Map<Seq<char>, EventView>)
    requires
        t.dom().finite(),
        t.dom().len() <= MAX_THREAT_EVENTS,
        logged(t, e, dropped, t2),
    ensures
        t2.dom().finite(),
        t2.dom().len() <= MAX_THREAT_EVENTS,
{
    if t.dom().len() >= MAX_THREAT_EVENTS {
        let d = dropped.to_set();
        dropped.unique_seq_to_set();
        vstd::seq_lib::seq_to_set_is_finite(dropped);
        assert(d.subset_of(t.dom())) by {
            assert forall|k: Seq<char>| d.contains(k) implies t.dom().contains(k) by {
                let i = choose|i: int| 0 <= i < dropped.len() && dropped[i] == k;
                assert(t.dom().contains(dropped[i]));
            }
        }
        let rest = t.dom().difference(d);
        assert(t.remove_keys(d).dom() =~= rest);
        vstd::set_lib::lemma_set_difference_len(t.dom(), d);
        assert(t.dom().intersect(d) =~= d);
        assert(t2.dom() =~= rest.insert(e.id));
    } else {
        assert(t2.dom() =~= t.dom().insert(e.id));
    }
}

} // verus!
