//! The cache of model verdicts by request: a verdict is kept with the time it
//! was stored, reused while it is fresh, and a full cache sheds a batch of
//! entries before it takes another. A reply that carries no verdict is never
//! cached.
use vstd::prelude::*;
use dashmap::DashMap;
use crate::waf_engine::{DetectionResult, verdict_view, cache_fresh, parse_reply, reply_parses, reply_verdict};

verus! {

/// Entries at which the cache is full.
pub const MAX_CACHE_ENTRIES: usize = 10000;
/// Entries a full cache sheds before it takes another.
pub const EVICTION_BATCH: usize = 1000;

/// The concurrent map of cache keys to verdicts and their storage times.
pub type VerdictTable = DashMap<String, (DetectionResult, u64)>;

/// What a verdict map holds: each key with its verdict (as plain values) and
/// the time it was stored (Unix nanoseconds).
pub uninterp spec fn verdict_table(m: VerdictTable) -> Map<Seq<char>, ((Seq<char>, Seq<Seq<char>>), u64)>;

/// The entries of `m` that are fresh at `now` under `ttl` seconds.
pub open spec fn fresh_only(m: Map<Seq<char>, ((Seq<char>, Seq<Seq<char>>), u64)>, now: u64, ttl: u64)
    -> Map<Seq<char>, ((Seq<char>, Seq<Seq<char>>), u64)> {
    Map::new(|k: Seq<char>| m.dom().contains(k) && cache_fresh(m[k].1, now, ttl), |k: Seq<char>| m[k])
}

/// An empty map (`DashMap::new`).
#[verifier::external_body]
fn verdicts_new() -> (fresh: VerdictTable)
    ensures
        verdict_table(fresh).dom() == Set::<Seq<char>>::empty(),
{
    DashMap::new()
}

/// The verdict and time stored under a key, copied out (`DashMap::get`).
#[verifier::external_body]
fn verdicts_get(m: &VerdictTable, k: &str) -> (r: Option<(DetectionResult, u64)>)
    ensures
        match r {
            Some((d, t)) => verdict_table(*m).dom().contains(k@) && verdict_table(*m)[k@] == (verdict_view(d), t),
            None => !verdict_table(*m).dom().contains(k@),
        },
{
    m.get(k).map(|e| e.value().clone())
}

/// Stores a verdict and time under a key, replacing any (`DashMap::insert`).
#[verifier::external_body]
fn verdicts_insert(m: &mut VerdictTable, k: String, d: DetectionResult, t: u64)
    ensures
        verdict_table(*final(m)) == verdict_table(*old(m)).insert(k@, (verdict_view(d), t)),
{
    m.insert(k, (d, t));
}

/// Drops a key (`DashMap::remove`).
#[verifier::external_body]
fn verdicts_remove(m: &mut VerdictTable, k: &str)
    ensures
        verdict_table(*final(m)) == verdict_table(*old(m)).remove(k@),
{
    m.remove(k);
}

/// The number of keys (`DashMap::len`).
#[verifier::external_body]
fn verdicts_len(m: &VerdictTable) -> (n: usize)
    ensures
        n == verdict_table(*m).dom().len(),
{
    m.len()
}

/// Every key, each once, in the order the map is walked (`DashMap::iter`),
/// which is not stated.
#[verifier::external_body]
fn verdicts_keys(m: &VerdictTable) -> (v: Vec<String>)
    ensures
        v@.map_values(|k: String| k@).no_duplicates(),
        v@.map_values(|k: String| k@).to_set() == verdict_table(*m).dom(),
{
    m.iter().map(|e| e.key().clone()).collect()
}

/// Keeps the entries still fresh at `now` (`DashMap::retain`).
#[verifier::external_body]
fn verdicts_retain_fresh(m: &mut VerdictTable, now: u64, ttl: u64)
    ensures
        verdict_table(*final(m)) == fresh_only(verdict_table(*old(m)), now, ttl),
{
    m.retain(|_, v| is_fresh(v.1, now, ttl));
}

/// Whether a verdict stored at `stored` is still good at `now`.
fn is_fresh(stored: u64, now: u64, ttl: u64) -> (b: bool)
    ensures
        b == cache_fresh(stored, now, ttl),
{
    now >= stored && (now - stored) / crate::clock::NANOS_PER_SEC < ttl
}

/// A copy of a verdict.
fn copy_verdict(d: &DetectionResult) -> (c: DetectionResult)
    ensures
        verdict_view(c) == verdict_view(*d),
{
    let mut types: Vec<String> = Vec::new();
    let mut i: usize = 0;
    while i < d.attack_types.len()
        invariant
            i <= d.attack_types@.len(),
            types@.map_values(|s: String| s@) == d.attack_types@.take(i as int).map_values(|s: String| s@),
        decreases d.attack_types.len() - i,
    {
        types.push(d.attack_types[i].clone());
        assert(d.attack_types@.take(i + 1).map_values(|s: String| s@)
            =~= d.attack_types@.take(i as int).map_values(|s: String| s@).push(d.attack_types@[i as int]@));
        i = i + 1;
    }
    assert(d.attack_types@.take(d.attack_types@.len() as int) =~= d.attack_types@);
    DetectionResult { detection_type: d.detection_type.clone(), attack_types: types }
}

/// Model verdicts by cache key, with the times they were stored.
pub struct DetectionCache {
    entries: VerdictTable,
}

impl DetectionCache {
    /// The cached verdicts and their storage times, by key.
    pub closed spec fn verdicts(&self) -> Map<Seq<char>, ((Seq<char>, Seq<Seq<char>>), u64)> {
        verdict_table(self.entries)
    }

    /// An empty cache.
    pub fn new() -> (c: Self)
        ensures
            c.verdicts() == Map::<Seq<char>, ((Seq<char>, Seq<Seq<char>>), u64)>::empty(),
    {
        let c = DetectionCache { entries: verdicts_new() };
        assert(c.verdicts() =~= Map::<Seq<char>, ((Seq<char>, Seq<Seq<char>>), u64)>::empty());
        c
    }

    /// Number of cached verdicts.
    pub fn len(&self) -> (n: usize)
        ensures
            n == self.verdicts().dom().len(),
    {
        verdicts_len(&self.entries)
    }

    /// The verdict cached under `key` with the time it was stored.
    pub fn get(&self, key: &str) -> (r: Option<(DetectionResult, u64)>)
        ensures
            match r {
                Some((d, t)) => self.verdicts().dom().contains(key@) && self.verdicts()[key@] == (verdict_view(d), t),
                None => !self.verdicts().dom().contains(key@),
            },
    {
        verdicts_get(&self.entries, key)
    }

    /// Drops the verdicts no longer fresh at `now` under `ttl` seconds.
    pub fn cleanup(&mut self, now: u64, ttl: u64)
        ensures
            final(self).verdicts() == fresh_only(old(self).verdicts(), now, ttl),
    {
        verdicts_retain_fresh(&mut self.entries, now, ttl);
    }

    /// Caches a verdict under `key` as stored at `now`. A full cache first
    /// sheds a batch of entries; which ones follows the order the map is
    /// walked in.
    pub fn store(&mut self, key: String, d: DetectionResult, now: u64)
        ensures
            old(self).verdicts().dom().len() < MAX_CACHE_ENTRIES ==>
                final(self).verdicts() == old(self).verdicts().insert(key@, (verdict_view(d), now)),
            old(self).verdicts().dom().len() >= MAX_CACHE_ENTRIES ==> exists|gone: Set<Seq<char>>|
                #![trigger old(self).verdicts().remove_keys(gone)]
                gone.subset_of(old(self).verdicts().dom()) && gone.len() == EVICTION_BATCH
                && final(self).verdicts() == old(self).verdicts().remove_keys(gone).insert(key@, (verdict_view(d), now)),
    {
        let ghost start = self.verdicts();
        if verdicts_len(&self.entries) >= MAX_CACHE_ENTRIES {
            let keys = verdicts_keys(&self.entries);
            let ghost kv = keys@.map_values(|k: String| k@);
            proof {
                kv.unique_seq_to_set();
            }
            let mut i: usize = 0;
            while i < EVICTION_BATCH
                invariant
                    i <= EVICTION_BATCH,
                    kv == keys@.map_values(|k: String| k@),
                    kv.no_duplicates(),
                    kv.to_set() == start.dom(),
                    kv.len() >= MAX_CACHE_ENTRIES,
                    self.verdicts() == start.remove_keys(kv.take(i as int).to_set()),
                decreases EVICTION_BATCH - i,
            {
                verdicts_remove(&mut self.entries, keys[i].as_str());
                assert(kv.take(i + 1).to_set() =~= kv.take(i as int).to_set().insert(kv[i as int])) by {
                    let a = kv.take(i + 1);
                    let b = kv.take(i as int);
                    assert forall|x: Seq<char>| a.contains(x) <==> (b.contains(x) || x == kv[i as int]) by {
                        if a.contains(x) {
                            let j = choose|j: int| 0 <= j < a.len() && a[j] == x;
                            if j < i {
                                assert(b[j] == x);
                            }
                        }
                        if b.contains(x) {
                            let j = choose|j: int| 0 <= j < b.len() && b[j] == x;
                            assert(a[j] == x);
                        }
                        if x == kv[i as int] {
                            assert(a[i as int] == x);
                        }
                    }
                }
                assert(self.verdicts() =~= start.remove_keys(kv.take(i + 1).to_set()));
                i = i + 1;
            }
            let ghost gone = kv.take(EVICTION_BATCH as int).to_set();
            proof {
                let t = kv.take(EVICTION_BATCH as int);
                assert(t.no_duplicates()) by {
                    assert forall|a: int, b: int| 0 <= a < t.len() && 0 <= b < t.len() && a != b implies t[a] != t[b] by {
                        assert(t[a] == kv[a] && t[b] == kv[b]);
                    }
                }
                t.unique_seq_to_set();
                assert forall|k: Seq<char>| gone.contains(k) implies start.dom().contains(k) by {
                    let j = choose|j: int| 0 <= j < t.len() && t[j] == k;
                    assert(kv[j] == k);
                    assert(kv.to_set().contains(kv[j]));
                }
            }
            verdicts_insert(&mut self.entries, key, d, now);
            assert(gone.subset_of(start.dom()));
            assert(self.verdicts() == start.remove_keys(gone).insert(key@, (verdict_view(d), now)));
        } else {
            verdicts_insert(&mut self.entries, key, d, now);
        }
    }

    /// Settles a model's reply for a request: a reply that carries a verdict
    /// is cached under `key` (when there is one) as stored at `now` and
    /// returned; one that carries none answers `normal` and leaves the cache
    /// as it was.
    pub fn settle_reply(&mut self, key: Option<String>, reply: &str, now: u64) -> (d: DetectionResult)
        ensures
            verdict_view(d) == reply_verdict(reply@),
            !reply_parses(reply@) ==> final(self).verdicts() == old(self).verdicts(),
            reply_parses(reply@) && key is None ==> final(self).verdicts() == old(self).verdicts(),
            reply_parses(reply@) && key is Some && old(self).verdicts().dom().len() < MAX_CACHE_ENTRIES ==>
                final(self).verdicts() == old(self).verdicts().insert(key->0@, (verdict_view(d), now)),
            reply_parses(reply@) && key is Some && old(self).verdicts().dom().len() >= MAX_CACHE_ENTRIES ==>
                exists|gone: Set<Seq<char>>|
                #![trigger old(self).verdicts().remove_keys(gone)]
                gone.subset_of(old(self).verdicts().dom()) && gone.len() == EVICTION_BATCH
                && final(self).verdicts() == old(self).verdicts().remove_keys(gone).insert(key->0@, (verdict_view(d), now)),
    {
        match parse_reply(reply) {
            Some(d) => {
                if let Some(k) = key {
                    self.store(k, copy_verdict(&d), now);
                }
                d
            },
            None => {
                let d = DetectionResult::normal();
                assert(d.attack_types@.map_values(|s: String| s@) =~= Seq::<Seq<char>>::empty());
                d
            },
        }
    }
}

/// A verdict just stored is what a read of its key gives back, whether or
/// not the cache shed entries to make room.
pub proof fn law_stored_verdict_reads_back(
    m: Map<Seq<char>, ((Seq<char>, Seq<Seq<char>>), u64)>,
    gone: Set<Seq<char>>,
    k: Seq<char>,
    v: ((Seq<char>, Seq<Seq<char>>), u64),
)
    ensures
        m.insert(k, v).dom().contains(k) && m.insert(k, v)[k] == v,
        m.remove_keys(gone).insert(k, v).dom().contains(k) && m.remove_keys(gone).insert(k, v)[k] == v,
{
}

} // verus!
