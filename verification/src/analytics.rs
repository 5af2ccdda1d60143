//! Traffic and attack statistics: named counters, what one finished session
//! adds to them, and the figures the WAF API reports (totals and the most
//! frequent attacking addresses).
//!
//! Averages and rates (floating point) are the caller's.
use vstd::prelude::*;
use crate::text::{chars_of, string_from_chars, vec_eq};

verus! {

broadcast use vstd::seq_lib::group_to_multiset_ensures;

/// The count stored under `key` (zero when absent).
pub open spec fn count_of(entries: Seq<(Seq<char>, u64)>, key: Seq<char>) -> u64
    decreases entries.len(),
{
    if entries.len() == 0 {
        0
    } else if entries.last().0 == key {
        entries.last().1
    } else {
        count_of(entries.drop_last(), key)
    }
}

/// No key occurs twice.
pub open spec fn keys_distinct(entries: Seq<(Seq<char>, u64)>) -> bool {
    forall|i: int, j: int| 0 <= i < j < entries.len() ==> entries[i].0 != entries[j].0
}

/// Counters by name, in the order the names first appeared.
#[derive(Debug, Clone)]
pub struct CounterMap {
    pub entries: Vec<(String, u64)>,
}

impl CounterMap {
    /// The names and counts.
    pub open spec fn view_entries(&self) -> Seq<(Seq<char>, u64)> {
        self.entries@.map_values(|e: (String, u64)| (e.0@, e.1))
    }

    /// Names are unique.
    pub open spec fn wf(&self) -> bool {
        keys_distinct(self.view_entries())
    }

    /// No counters.
    pub fn new() -> (m: Self)
        ensures
            m.wf(),
            m.view_entries() == Seq::<(Seq<char>, u64)>::empty(),
    {
        let m = CounterMap { entries: Vec::new() };
        assert(m.view_entries() =~= Seq::<(Seq<char>, u64)>::empty());
        m
    }

    fn position(&self, key: &str) -> (r: Option<usize>)
        ensures
            match r {
                Some(i) => i < self.entries@.len() && self.view_entries()[i as int].0 == key@,
                None => forall|j: int| 0 <= j < self.entries@.len() ==> self.view_entries()[j].0 != key@,
            },
    {
        let wanted = chars_of(key);
        let mut i: usize = 0;
        while i < self.entries.len()
            invariant
                i <= self.entries@.len(),
                wanted@ == key@,
                forall|j: int| 0 <= j < i ==> self.view_entries()[j].0 != key@,
            decreases self.entries.len() - i,
        {
            let k = chars_of(self.entries[i].0.as_str());
            if vec_eq(&k, &wanted) {
                return Some(i);
            }
            i = i + 1;
        }
        None
    }

    /// The count under `key` (zero when absent).
    pub fn get(&self, key: &str) -> (n: u64)
        requires
            self.wf(),
        ensures
            n == count_of(self.view_entries(), key@),
    {
        proof {
            lemma_count_of_distinct(self.view_entries(), key@);
        }
        match self.position(key) {
            Some(i) => self.entries[i].1,
            None => 0,
        }
    }

    /// Adds one to the count under `key`, which starts at zero.
    pub fn inc(&mut self, key: &str)
        requires
            old(self).wf(),
            count_of(old(self).view_entries(), key@) < u64::MAX,
        ensures
            final(self).wf(),
            count_of(final(self).view_entries(), key@) == count_of(old(self).view_entries(), key@) + 1,
            forall|k: Seq<char>| k != key@ ==> count_of(final(self).view_entries(), k) == count_of(old(self).view_entries(), k),
    {
        let ghost before = self.view_entries();
        proof {
            lemma_count_of_distinct(before, key@);
        }
        match self.position(key) {
            Some(i) => {
                let n = self.entries[i].1;
                let name = self.entries[i].0.clone();
                self.entries.set(i, (name, n + 1));
                proof {
                    let after = self.view_entries();
                    assert(after =~= before.update(i as int, (key@, (n + 1) as u64)));
                    assert forall|a: int, b: int| 0 <= a < b < after.len() implies after[a].0 != after[b].0 by {
                        assert(after[a].0 == before[a].0 && after[b].0 == before[b].0);
                    }
                    lemma_count_of_distinct(after, key@);
                    assert(after[i as int].0 == key@ && after[i as int].1 == n + 1);
                    assert(count_of(after, key@) == n + 1);
                    assert forall|k: Seq<char>| k != key@ implies count_of(after, k) == count_of(before, k) by {
                        lemma_count_of_distinct(before, k);
                        lemma_count_of_distinct(after, k);
                        if exists|j: int| 0 <= j < before.len() && before[j].0 == k {
                            let j = choose|j: int| 0 <= j < before.len() && before[j].0 == k;
                            assert(after[j] == before[j]);
                        } else {
                            assert forall|j: int| 0 <= j < after.len() implies after[j].0 != k by {
                                assert(after[j].0 == before[j].0);
                            }
                        }
                    }
                }
            },
            None => {
                self.entries.push((string_from_chars(chars_of(key).as_slice()), 1));
                proof {
                    let after = self.view_entries();
                    assert(after =~= before.push((key@, 1u64)));
                    assert(after.drop_last() =~= before);
                    assert forall|a: int, b: int| 0 <= a < b < after.len() implies after[a].0 != after[b].0 by {
                        if b < before.len() {
                            assert(after[a] == before[a] && after[b] == before[b]);
                        } else {
                            assert(after[a] == before[a]);
                        }
                    }
                    assert forall|k: Seq<char>| k != key@ implies count_of(after, k) == count_of(before, k) by {}
                }
            },
        }
    }
}

/// In a map with distinct names, the count under `key` is that of the one
/// entry named `key`, or zero.
pub proof fn lemma_count_of_distinct(entries: Seq<(Seq<char>, u64)>, key: Seq<char>)
    requires
        keys_distinct(entries),
    ensures
        forall|i: int| 0 <= i < entries.len() && entries[i].0 == key ==> count_of(entries, key) == entries[i].1,
        (forall|i: int| 0 <= i < entries.len() ==> entries[i].0 != key) ==> count_of(entries, key) == 0,
    decreases entries.len(),
{
    if entries.len() > 0 {
        let rest = entries.drop_last();
        let n = entries.len() - 1;
        assert forall|i: int, j: int| 0 <= i < j < rest.len() implies rest[i].0 != rest[j].0 by {
            assert(rest[i] == entries[i] && rest[j] == entries[j]);
        }
        lemma_count_of_distinct(rest, key);
        assert(entries.last() == entries[n]);
        assert forall|i: int| 0 <= i < entries.len() && entries[i].0 == key implies count_of(entries, key) == entries[i].1 by {
            if i < n {
                assert(rest[i] == entries[i]);
                assert(entries[n].0 != key);
            }
        }
        assert forall|i: int| 0 <= i < rest.len() implies #[trigger] rest[i] == entries[i] by {}
    }
}

/// Attack statistics of a site.
#[derive(Debug, Clone)]
pub struct SecurityStats {
    pub blocked_requests: u64,
    pub attack_types: CounterMap,
    pub top_attack_ips: CounterMap,
    pub top_target_urls: CounterMap,
    /// Attackers by country, kept only where the statistics have a `geo` part.
    pub attackers_by_country: Option<CounterMap>,
}

/// Visitor statistics of a site.
#[derive(Debug, Clone)]
pub struct TrafficStats {
    pub visitors_total: u64,
    /// Sessions counted for engagement, where the statistics have that part.
    pub engagement_total: Option<u64>,
    pub trending_urls: CounterMap,
    /// Browsers, operating systems and devices, where the statistics have that part.
    pub clients: Option<(CounterMap, CounterMap, CounterMap)>,
}

/// What the statistics read from one finished session's log entry.
#[derive(Debug, Clone)]
pub struct SessionSummary {
    pub ip: String,
    pub is_hacker: bool,
    pub url_path: String,
    pub country: String,
    pub attack_types: Vec<String>,
    pub duration_sec: u64,
    pub browser: String,
    pub os: String,
    pub device: String,
}

/// The path that `url::Url::parse` finds in a URL; `None` when it does not parse.
pub uninterp spec fn parsed_url_path(url: Seq<char>) -> Option<Seq<char>>;

/// Parses a URL with the `url` crate and returns its path.
#[verifier::external_body]
fn url_path(url: &str) -> (r: Option<String>)
    ensures
        match r {
            Some(p) => parsed_url_path(url@) == Some(p@),
            None => parsed_url_path(url@) is None,
        },
{
    url::Url::parse(url).ok().map(|u| u.path().to_string())
}

/// The path of a URL, or the text itself when it is not a full URL.
pub open spec fn extract_path_spec(url: Seq<char>) -> Seq<char> {
    match parsed_url_path(url) {
        Some(p) => p,
        None => url,
    }
}

/// The path of a URL, or the text itself when it is not a full URL.
pub fn extract_path(url: &str) -> (p: String)
    ensures
        p@ == extract_path_spec(url@),
{
    match url_path(url) {
        Some(p) => p,
        None => string_from_chars(chars_of(url).as_slice()),
    }
}

/// The country a session is counted under: `unknown` when none is known.
pub fn country_or_unknown(country: Option<&str>) -> (c: String)
    ensures
        c@ == match country {
            Some(s) => if s@.len() == 0 { "unknown"@ } else { s@ },
            None => "unknown"@,
        },
{
    match country {
        Some(s) => if s.is_empty() {
            string_from_chars(chars_of("unknown").as_slice())
        } else {
            string_from_chars(chars_of(s).as_slice())
        },
        None => string_from_chars(chars_of("unknown").as_slice()),
    }
}

/// The counter maps of attack statistics have unique names, and the
/// blocked total can grow.
pub open spec fn security_room(s: SecurityStats) -> bool {
    &&& s.blocked_requests < u64::MAX
    &&& s.attack_types.wf() && s.top_attack_ips.wf() && s.top_target_urls.wf()
    &&& (s.attackers_by_country matches Some(g) ==> g.wf())
}

/// Room for one more attack of `s` in the security figures.
pub open spec fn attack_room(sec: SecurityStats, s: SessionSummary) -> bool {
    &&& security_room(sec)
    &&& forall|k: Seq<char>| count_of(sec.attack_types.view_entries(), k) + s.attack_types@.len() < u64::MAX
    &&& count_of(sec.top_attack_ips.view_entries(), s.ip@) < u64::MAX
    &&& count_of(sec.top_target_urls.view_entries(), s.url_path@) < u64::MAX
    &&& (sec.attackers_by_country matches Some(g) ==> count_of(g.view_entries(), s.country@) < u64::MAX)
}

/// `n` is `o` with one blocked attack of `s` counted: the blocked total,
/// each of its attack types, its address, its path and (with a `geo` part)
/// its country.
pub open spec fn attack_counted(o: SecurityStats, n: SecurityStats, s: SessionSummary) -> bool {
    &&& n.attack_types.wf() && n.top_attack_ips.wf() && n.top_target_urls.wf()
    &&& n.blocked_requests == o.blocked_requests + 1
    &&& forall|k: Seq<char>| count_of(n.attack_types.view_entries(), k)
        == count_of(o.attack_types.view_entries(), k) + occurrences(texts_of(s.attack_types@), k)
    &&& count_of(n.top_attack_ips.view_entries(), s.ip@) == count_of(o.top_attack_ips.view_entries(), s.ip@) + 1
    &&& forall|k: Seq<char>| k != s.ip@ ==> count_of(n.top_attack_ips.view_entries(), k)
        == count_of(o.top_attack_ips.view_entries(), k)
    &&& count_of(n.top_target_urls.view_entries(), s.url_path@) == count_of(o.top_target_urls.view_entries(), s.url_path@) + 1
    &&& forall|k: Seq<char>| k != s.url_path@ ==> count_of(n.top_target_urls.view_entries(), k)
        == count_of(o.top_target_urls.view_entries(), k)
    &&& match (o.attackers_by_country, n.attackers_by_country) {
        (Some(g0), Some(g1)) => g1.wf()
            && count_of(g1.view_entries(), s.country@) == count_of(g0.view_entries(), s.country@) + 1
            && forall|k: Seq<char>| k != s.country@ ==> count_of(g1.view_entries(), k) == count_of(g0.view_entries(), k),
        (None, None) => true,
        _ => false,
    }
}

impl SecurityStats {
    /// Counts one blocked attack: the blocked total, each of its attack
    /// types, its address, its path and (with a `geo` part) its country.
    pub fn record_attack(&mut self, s: &SessionSummary)
        requires
            attack_room(*old(self), *s),
        ensures
            attack_counted(*old(self), *final(self), *s),
    {
        self.blocked_requests = self.blocked_requests + 1;
        let ghost start = self.attack_types.view_entries();
        let ghost names = texts_of(s.attack_types@);
        let mut i: usize = 0;
        while i < s.attack_types.len()
            invariant
                i <= s.attack_types@.len(),
                names == texts_of(s.attack_types@),
                self.attack_types.wf(),
                self.top_attack_ips == old(self).top_attack_ips,
                self.top_target_urls == old(self).top_target_urls,
                self.attackers_by_country == old(self).attackers_by_country,
                self.blocked_requests == old(self).blocked_requests + 1,
                forall|k: Seq<char>| count_of(start, k) + s.attack_types@.len() < u64::MAX,
                forall|k: Seq<char>| count_of(self.attack_types.view_entries(), k)
                    == count_of(start, k) + occurrences(names.take(i as int), k),
            decreases s.attack_types.len() - i,
        {
            proof {
                assert(names.take(i + 1) =~= names.take(i as int).push(names[i as int]));
                lemma_occurrences_bound(names.take(i as int), s.attack_types@[i as int]@);
            }
            self.attack_types.inc(s.attack_types[i].as_str());
            proof {
                assert forall|k: Seq<char>| count_of(self.attack_types.view_entries(), k)
                    == count_of(start, k) + occurrences(names.take(i + 1), k) by {
                    assert(names.take(i + 1).drop_last() =~= names.take(i as int));
                }
            }
            i = i + 1;
        }
        assert(names.take(s.attack_types@.len() as int) =~= names);
        self.top_attack_ips.inc(s.ip.as_str());
        self.top_target_urls.inc(s.url_path.as_str());
        match &mut self.attackers_by_country {
            Some(g) => {
                g.inc(s.country.as_str());
            },
            None => {},
        }
    }
}

/// The texts of strings.
pub open spec fn texts_of(v: Seq<String>) -> Seq<Seq<char>> {
    v.map_values(|s: String| s@)
}

/// How often `k` occurs in `s`.
pub open spec fn occurrences(s: Seq<Seq<char>>, k: Seq<char>) -> nat
    decreases s.len(),
{
    if s.len() == 0 {
        0
    } else {
        occurrences(s.drop_last(), k) + if s.last() == k { 1nat } else { 0nat }
    }
}

proof fn lemma_occurrences_bound(s: Seq<Seq<char>>, k: Seq<char>)
    ensures
        occurrences(s, k) <= s.len(),
    decreases s.len(),
{
    if s.len() > 0 {
        lemma_occurrences_bound(s.drop_last(), k);
    }
}

/// Room for one more visit of `s` in the traffic figures.
pub open spec fn visit_room(t: TrafficStats, s: SessionSummary) -> bool {
    &&& t.visitors_total < u64::MAX
    &&& (t.engagement_total matches Some(n) ==> n < u64::MAX)
    &&& t.trending_urls.wf()
    &&& count_of(t.trending_urls.view_entries(), s.url_path@) < u64::MAX
    &&& (t.clients matches Some((b, o, d)) ==> b.wf() && o.wf() && d.wf()
        && count_of(b.view_entries(), s.browser@) < u64::MAX
        && count_of(o.view_entries(), s.os@) < u64::MAX
        && count_of(d.view_entries(), s.device@) < u64::MAX)
}

/// `t1` is `t0` with one visit of `s` counted: the visitor total, the
/// engagement total (where kept), its path, and (where kept) its browser,
/// system and device.
pub open spec fn visit_counted(t0: TrafficStats, t1: TrafficStats, s: SessionSummary) -> bool {
    &&& t1.visitors_total == t0.visitors_total + 1
    &&& t1.engagement_total == match t0.engagement_total {
        Some(n) => Some((n + 1) as u64),
        None => None,
    }
    &&& t1.trending_urls.wf()
    &&& count_of(t1.trending_urls.view_entries(), s.url_path@) == count_of(t0.trending_urls.view_entries(), s.url_path@) + 1
    &&& forall|k: Seq<char>| k != s.url_path@ ==> count_of(t1.trending_urls.view_entries(), k)
        == count_of(t0.trending_urls.view_entries(), k)
    &&& match (t0.clients, t1.clients) {
        (Some((b0, o0, d0)), Some((b1, o1, d1))) =>
            count_of(b1.view_entries(), s.browser@) == count_of(b0.view_entries(), s.browser@) + 1
            && count_of(o1.view_entries(), s.os@) == count_of(o0.view_entries(), s.os@) + 1
            && count_of(d1.view_entries(), s.device@) == count_of(d0.view_entries(), s.device@) + 1,
        (None, None) => true,
        _ => false,
    }
}

impl TrafficStats {
    /// Counts one visit (see [`visit_counted`]); a session of no duration
    /// counts as no visit and leaves the figures as they are.
    pub fn record_visit(&mut self, s: &SessionSummary)
        requires
            s.duration_sec != 0 ==> visit_room(*old(self), *s),
        ensures
            s.duration_sec == 0 ==> *final(self) == *old(self),
            s.duration_sec != 0 ==> visit_counted(*old(self), *final(self), *s),
    {
        if s.duration_sec == 0 {
            return;
        }
        self.visitors_total = self.visitors_total + 1;
        self.engagement_total = match self.engagement_total {
            Some(n) => Some(n + 1),
            None => None,
        };
        self.trending_urls.inc(s.url_path.as_str());
        match &mut self.clients {
            Some(c) => {
                c.0.inc(s.browser.as_str());
                c.1.inc(s.os.as_str());
                c.2.inc(s.device.as_str());
            },
            None => {},
        }
    }
}

/// Counts one finished session: an attack when it was judged `hacker`, and a
/// visit when it lasted (both for an attacker's session that lasted).
pub fn count_session(security: &mut SecurityStats, traffic: &mut TrafficStats, s: &SessionSummary)
    requires
        s.is_hacker ==> attack_room(*old(security), *s),
        s.duration_sec != 0 ==> visit_room(*old(traffic), *s),
    ensures
        s.is_hacker ==> attack_counted(*old(security), *final(security), *s),
        !s.is_hacker ==> *final(security) == *old(security),
        s.duration_sec != 0 ==> visit_counted(*old(traffic), *final(traffic), *s),
        s.duration_sec == 0 ==> *final(traffic) == *old(traffic),
{
    if s.is_hacker {
        security.record_attack(s);
    }
    traffic.record_visit(s);
}

/// One attacking address and how many attacks it made.
#[derive(Debug, Clone)]
pub struct ThreatEntry {
    pub ip: String,
    pub count: u64,
    pub threat_type: String,
}

/// The requests counted so far (zero without traffic statistics).
pub fn get_total_requests(traffic: Option<&TrafficStats>) -> (n: u64)
    ensures
        n == match traffic {
            Some(t) => t.visitors_total,
            None => 0,
        },
{
    match traffic {
        Some(t) => t.visitors_total,
        None => 0,
    }
}

/// The requests blocked so far (zero without attack statistics).
pub fn get_blocked_requests(security: Option<&SecurityStats>) -> (n: u64)
    ensures
        n == match security {
            Some(s) => s.blocked_requests,
            None => 0,
        },
{
    match security {
        Some(s) => s.blocked_requests,
        None => 0,
    }
}

/// Inserts `x` after every entry whose count is at least its count (so
/// equal counts keep their order).
pub open spec fn insert_by_count(s: Seq<(Seq<char>, u64)>, x: (Seq<char>, u64)) -> Seq<(Seq<char>, u64)>
    decreases s.len(),
{
    if s.len() == 0 {
        seq![x]
    } else if s.last().1 >= x.1 {
        s.push(x)
    } else {
        insert_by_count(s.drop_last(), x).push(s.last())
    }
}

/// The entries by count, highest first; equal counts keep their order.
pub open spec fn by_count_desc(s: Seq<(Seq<char>, u64)>) -> Seq<(Seq<char>, u64)>
    decreases s.len(),
{
    if s.len() == 0 {
        s
    } else {
        insert_by_count(by_count_desc(s.drop_last()), s.last())
    }
}

/// At most ten most frequent attacking addresses, the most frequent first;
/// addresses with equal counts keep their order.
pub open spec fn top_threats_spec(ips: Seq<(Seq<char>, u64)>) -> Seq<(Seq<char>, u64)> {
    let sorted = by_count_desc(ips);
    if sorted.len() > 10 { sorted.take(10) } else { sorted }
}

/// The pairs of address and count of threat entries.
pub open spec fn threat_pairs(v: Seq<ThreatEntry>) -> Seq<(Seq<char>, u64)> {
    v.map_values(|t: ThreatEntry| (t.ip@, t.count))
}

/// At most ten most frequent attacking addresses, the most frequent first,
/// each of threat type `multiple`.
pub fn get_top_threats(security: Option<&SecurityStats>) -> (r: Vec<ThreatEntry>)
    ensures
        threat_pairs(r@) == top_threats_spec(match security {
            Some(s) => s.top_attack_ips.view_entries(),
            None => Seq::empty(),
        }),
        forall|i: int| 0 <= i < r@.len() ==> #[trigger] r@[i].threat_type@ == "multiple"@,
{
    let ghost ips = match security {
        Some(s) => s.top_attack_ips.view_entries(),
        None => Seq::<(Seq<char>, u64)>::empty(),
    };
    let mut out: Vec<ThreatEntry> = Vec::new();
    match security {
        Some(sec) => {
            let entries = &sec.top_attack_ips.entries;
            let mut i: usize = 0;
            assert(ips.take(0) =~= Seq::<(Seq<char>, u64)>::empty());
            while i < entries.len()
                invariant
                    i <= entries@.len(),
                    ips == sec.top_attack_ips.view_entries(),
                    entries@ == sec.top_attack_ips.entries@,
                    threat_pairs(out@) == by_count_desc(ips.take(i as int)),
                    forall|j: int| 0 <= j < out@.len() ==> #[trigger] out@[j].threat_type@ == "multiple"@,
                decreases entries.len() - i,
            {
                assert(ips.take(i + 1).drop_last() =~= ips.take(i as int));
                assert(ips.take(i + 1).last() == (entries@[i as int].0@, entries@[i as int].1));
                let e = ThreatEntry {
                    ip: entries[i].0.clone(),
                    count: entries[i].1,
                    threat_type: string_from_chars(chars_of("multiple").as_slice()),
                };
                let ghost ev = (e.ip@, e.count);
                let ghost before = threat_pairs(out@);
                let mut k: usize = out.len();
                assert(before.take(before.len() as int) =~= before);
                assert(before.skip(before.len() as int) =~= Seq::<(Seq<char>, u64)>::empty());
                while k > 0 && out[k - 1].count < e.count
                    invariant
                        k <= out@.len(),
                        before == threat_pairs(out@),
                        insert_by_count(before, ev) == insert_by_count(before.take(k as int), ev) + before.skip(k as int),
                        ev.1 == e.count,
                    decreases k,
                {
                    proof {
                        let t = before.take(k as int);
                        assert(t.last() == before[k - 1]);
                        assert(t.drop_last() =~= before.take(k - 1));
                        assert(before.skip(k - 1) =~= seq![before[k - 1]] + before.skip(k as int));
                        assert(insert_by_count(t, ev) == insert_by_count(before.take(k - 1), ev).push(t.last()));
                        assert(insert_by_count(before.take(k - 1), ev).push(t.last()) + before.skip(k as int)
                            =~= insert_by_count(before.take(k - 1), ev) + before.skip(k - 1));
                    }
                    k = k - 1;
                }
                proof {
                    let t = before.take(k as int);
                    if k > 0 {
                        assert(t.last() == before[k - 1]);
                        assert(insert_by_count(t, ev) == t.push(ev));
                    } else {
                        assert(t =~= Seq::<(Seq<char>, u64)>::empty());
                    }
                }
                let ghost old_out = out@;
                assert(forall|j: int| 0 <= j < old_out.len() ==> #[trigger] old_out[j].threat_type@ == "multiple"@);
                let ghost e_copy = e;
                assert(e_copy.threat_type@ == "multiple"@);
                out.insert(k, e);
                assert(out@[k as int] == e_copy);
                proof {
                    assert forall|j: int| 0 <= j < out@.len() implies #[trigger] out@[j].threat_type@ == "multiple"@ by {
                        if j < k {
                            assert(out@[j] == old_out[j]);
                            assert(old_out[j].threat_type@ == "multiple"@);
                        } else if j > k {
                            assert(out@[j] == old_out[j - 1]);
                            assert(old_out[j - 1].threat_type@ == "multiple"@);
                        }
                    }
                    assert(threat_pairs(out@) =~= before.take(k as int).push(ev) + before.skip(k as int));
                    assert(before =~= threat_pairs(out@).remove(k as int));
                }
                i = i + 1;
            }
            assert(ips.take(entries@.len() as int) =~= ips);
        },
        None => {
            assert(threat_pairs(out@) =~= by_count_desc(Seq::<(Seq<char>, u64)>::empty()));
        },
    }
    let ghost full = threat_pairs(out@);
    let ghost full_out = out@;
    assert(forall|j: int| 0 <= j < full_out.len() ==> #[trigger] full_out[j].threat_type@ == "multiple"@);
    if out.len() > 10 {
        out.truncate(10);
        assert(out@ =~= full_out.take(10));
        assert(threat_pairs(out@) =~= full.take(10));
    }
    assert forall|j: int| 0 <= j < out@.len() implies #[trigger] out@[j].threat_type@ == "multiple"@ by {
        assert(out@[j] == full_out[j]);
    }
    out
}

/// Stable insertion keeps a list ordered by count, highest first.
proof fn lemma_insert_by_count_sorted(s: Seq<(Seq<char>, u64)>, x: (Seq<char>, u64))
    requires
        forall|i: int, j: int| 0 <= i < j < s.len() ==> s[i].1 >= s[j].1,
    ensures
        forall|i: int, j: int| 0 <= i < j < insert_by_count(s, x).len()
            ==> insert_by_count(s, x)[i].1 >= insert_by_count(s, x)[j].1,
        insert_by_count(s, x).to_multiset() == s.to_multiset().insert(x),
    decreases s.len(),
{
    if s.len() == 0 {
        assert(insert_by_count(s, x) =~= seq![x]);
        assert(seq![x] =~= Seq::<(Seq<char>, u64)>::empty().push(x));
    } else if s.last().1 >= x.1 {
    } else {
        let r = s.drop_last();
        assert forall|i: int, j: int| 0 <= i < j < r.len() implies r[i].1 >= r[j].1 by {
            assert(r[i] == s[i] && r[j] == s[j]);
        }
        lemma_insert_by_count_sorted(r, x);
        let ir = insert_by_count(r, x);
        assert(s.last() == s[s.len() - 1]);
        assert forall|i: int| 0 <= i < ir.len() implies ir[i].1 >= s.last().1 by {
            assert(ir.to_multiset().count(ir[i]) > 0);
            if ir[i] == x {
            } else {
                assert(r.to_multiset().count(ir[i]) > 0);
                assert(r.contains(ir[i]));
                let k = choose|k: int| 0 <= k < r.len() && r[k] == ir[i];
                assert(s[k] == r[k]);
            }
        }
        assert(r.push(s.last()) =~= s);
    }
}

/// The listing of attacking addresses is ordered by count, highest first,
/// holds at most ten entries, and each of them is one of the counted addresses.
pub proof fn law_top_threats_sorted_and_bounded(ips: Seq<(Seq<char>, u64)>)
    ensures
        ({
            let t = top_threats_spec(ips);
            &&& t.len() <= 10
            &&& forall|i: int, j: int| 0 <= i < j < t.len() ==> t[i].1 >= t[j].1
            &&& forall|i: int| 0 <= i < t.len() ==> ips.contains(#[trigger] t[i])
        }),
{
    lemma_by_count_desc(ips);
    let sorted = by_count_desc(ips);
    let t = top_threats_spec(ips);
    assert forall|i: int| 0 <= i < t.len() implies ips.contains(#[trigger] t[i]) by {
        assert(t[i] == sorted[i]);
        assert(sorted.to_multiset().count(sorted[i]) > 0);
    }
}

/// Sorting by count orders the entries and keeps every one of them.
proof fn lemma_by_count_desc(s: Seq<(Seq<char>, u64)>)
    ensures
        forall|i: int, j: int| 0 <= i < j < by_count_desc(s).len() ==> by_count_desc(s)[i].1 >= by_count_desc(s)[j].1,
        by_count_desc(s).to_multiset() == s.to_multiset(),
    decreases s.len(),
{
    if s.len() > 0 {
        lemma_by_count_desc(s.drop_last());
        lemma_insert_by_count_sorted(by_count_desc(s.drop_last()), s.last());
        assert(s.drop_last().push(s.last()) =~= s);
    }
}

} // verus!
