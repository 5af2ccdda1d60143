//! Request-level threat signals: encoded payloads, scanner user agents and
//! attack progression over a client's recent requests.
use vstd::prelude::*;
use crate::regex_ops::{regex_match_count, regex_count};
use crate::text::{chars_of, contains, contains_seq, lowercase, to_lowercase, split_char, split_spec, views, vec_eq};

verus! {

/// The patterns whose matches count as encoded content: percent, `\x` and
/// `\u` escapes, HTML character references, base64 blobs and runs of escaped
/// control characters.
pub open spec fn encoded_patterns() -> Seq<Seq<char>> {
    seq![
        "%[0-9a-fA-F]{2}"@,
        "\\\\x[0-9a-fA-F]{2}"@,
        "\\\\u[0-9a-fA-F]{4}"@,
        "&#x?[0-9a-fA-F]+;"@,
        "base64[,\\s]+[A-Za-z0-9+/=]{16,}"@,
        "\\\\[r\\n\\t]{2,}"@,
    ]
}

/// Matches of one pattern, counting a pattern that does not compile as none.
pub open spec fn count_or_zero(pattern: Seq<char>, text: Seq<char>) -> nat {
    match regex_match_count(pattern, text) {
        Some(n) => n,
        None => 0,
    }
}

/// Total matches of the first `k` encoded-content patterns in `text`.
pub open spec fn encoded_matches(text: Seq<char>, k: nat) -> nat
    decreases k,
{
    if k == 0 {
        0
    } else {
        encoded_matches(text, (k - 1) as nat) + count_or_zero(encoded_patterns()[k - 1], text)
    }
}

/// The body has encoded content making up more than one percent of its
/// length in bytes (matches per byte above 0.01).
pub open spec fn has_encoded_payload_spec(body: Seq<char>) -> bool {
    body.len() > 0 && encoded_matches(body, 6) > 0 && encoded_matches(body, 6) * 100 > vstd::utf8::encode_utf8(body).len()
}

/// Whether the body carries encoded content above one percent of its bytes.
pub fn has_encoded_payload(request_body: &str) -> (b: bool)
    ensures
        b == has_encoded_payload_spec(request_body@),
{
    if request_body.is_empty() {
        return false;
    }
    let patterns: [&str; 6] = [
        "%[0-9a-fA-F]{2}",
        "\\\\x[0-9a-fA-F]{2}",
        "\\\\u[0-9a-fA-F]{4}",
        "&#x?[0-9a-fA-F]+;",
        "base64[,\\s]+[A-Za-z0-9+/=]{16,}",
        "\\\\[r\\n\\t]{2,}",
    ];
    assert(patterns@.map_values(|p: &str| p@) =~= encoded_patterns());
    let mut total: u128 = 0;
    let mut k: usize = 0;
    while k < 6
        invariant
            k <= 6,
            patterns@.map_values(|p: &str| p@) == encoded_patterns(),
            total == encoded_matches(request_body@, k as nat),
            total <= (k as u128) * 0x1_0000_0000_0000_0000u128,
        decreases 6 - k,
    {
        let n = match regex_count(patterns[k], request_body) {
            Some(n) => n,
            None => 0,
        };
        assert(patterns[k as int]@ == encoded_patterns()[k as int]);
        total = total + n as u128;
        k = k + 1;
    }
    let bytes = request_body.as_bytes();
    let len = bytes.len() as u128;
    assert(bytes@ == vstd::utf8::encode_utf8(request_body@));
    total > 0 && total * 100 > len
}

/// Fragments that mark scanners and scripted clients in a user agent.
pub open spec fn suspicious_ua_fragments() -> Seq<Seq<char>> {
    seq![
        "sqlmap"@, "nikto"@, "nmap"@, "burp"@, "dirbuster"@, "gobuster"@, "nuclei"@,
        "wfuzz"@, "hydra"@, "curl/"@, "python-requests"@, "python-urllib"@, "go-http-client"@,
    ]
}

/// The lower-cased user agent contains a scanner or script fragment.
pub open spec fn is_suspicious_ua_spec(ua: Seq<char>) -> bool {
    exists|i: int| 0 <= i < suspicious_ua_fragments().len() && contains_seq(lowercase(ua), #[trigger] suspicious_ua_fragments()[i])
}

/// Whether the user agent names a scanner or a scripted HTTP client.
pub fn is_suspicious_ua(ua: &str) -> (b: bool)
    ensures
        b == is_suspicious_ua_spec(ua@),
{
    let frags: [&str; 13] = [
        "sqlmap", "nikto", "nmap", "burp", "dirbuster", "gobuster", "nuclei",
        "wfuzz", "hydra", "curl/", "python-requests", "python-urllib", "go-http-client",
    ];
    assert(frags@.map_values(|p: &str| p@) =~= suspicious_ua_fragments());
    let lower = to_lowercase(ua);
    let lc = chars_of(lower.as_str());
    let mut i: usize = 0;
    while i < 13
        invariant
            i <= 13,
            lc@ == lowercase(ua@),
            frags@.map_values(|p: &str| p@) == suspicious_ua_fragments(),
            forall|j: int| 0 <= j < i ==> !contains_seq(lowercase(ua@), #[trigger] suspicious_ua_fragments()[j]),
        decreases 13 - i,
    {
        let f = chars_of(frags[i]);
        assert(frags[i as int]@ == suspicious_ua_fragments()[i as int]);
        if contains(lc.as_slice(), f.as_slice()) {
            return true;
        }
        i = i + 1;
    }
    false
}

/// One request in a client's history.
#[derive(Debug, Clone)]
pub struct RequestRecord {
    pub timestamp: u64,
    pub url: String,
    pub method: String,
    pub status_code: u16,
    pub is_suspicious: bool,
}

/// The last (up to) ten requests, most recent first.
pub open spec fn recent(h: Seq<RequestRecord>) -> Seq<RequestRecord> {
    let n = if h.len() < 10 { h.len() } else { 10 };
    Seq::new(n, |i: int| h[h.len() - 1 - i])
}

/// Number of suspicious requests.
pub open spec fn count_suspicious(s: Seq<RequestRecord>) -> nat
    decreases s.len(),
{
    if s.len() == 0 { 0 } else { count_suspicious(s.drop_last()) + if s.last().is_suspicious { 1nat } else { 0nat } }
}

/// Number of requests answered with a status of 400 or above.
pub open spec fn count_errors(s: Seq<RequestRecord>) -> nat
    decreases s.len(),
{
    if s.len() == 0 { 0 } else { count_errors(s.drop_last()) + if s.last().status_code >= 400 { 1nat } else { 0nat } }
}

/// Number of requests answered with 404.
pub open spec fn count_not_found(s: Seq<RequestRecord>) -> nat
    decreases s.len(),
{
    if s.len() == 0 { 0 } else { count_not_found(s.drop_last()) + if s.last().status_code == 404 { 1nat } else { 0nat } }
}

/// Positions where two segment lists agree, over their common length.
pub open spec fn equal_positions(a: Seq<Seq<char>>, b: Seq<Seq<char>>, k: nat) -> nat
    decreases k,
{
    if k == 0 { 0 } else { equal_positions(a, b, (k - 1) as nat) + if a[k - 1] == b[k - 1] { 1nat } else { 0nat } }
}

/// Two paths agree on more than 70% of their `/`-separated segments
/// (counted against the longer of the two).
pub open spec fn similar_paths(p1: Seq<char>, p2: Seq<char>) -> bool {
    let a = split_spec(p1, '/');
    let b = split_spec(p2, '/');
    let common = if a.len() < b.len() { a.len() } else { b.len() };
    let longest = if a.len() < b.len() { b.len() } else { a.len() };
    10 * equal_positions(a, b, common) > 7 * longest
}

/// Adjacent pairs `(i - 1, i)` with `1 <= i < k` whose paths are similar.
pub open spec fn similar_steps(s: Seq<RequestRecord>, k: nat) -> nat
    decreases k,
{
    if k <= 1 { 0 } else { similar_steps(s, (k - 1) as nat) + if similar_paths(s[k - 2].url@, s[k - 1].url@) { 1nat } else { 0nat } }
}

/// At least five requests, and at least three similar consecutive paths.
pub open spec fn path_enumeration(s: Seq<RequestRecord>) -> bool {
    s.len() >= 5 && similar_steps(s, if s.len() < 10 { s.len() } else { 10 }) >= 3
}

/// More than half of the requests failed, or at least five were not found.
pub open spec fn suspicious_status_pattern(s: Seq<RequestRecord>) -> bool {
    s.len() > 0 && (2 * count_errors(s) > s.len() || count_not_found(s) >= 5)
}

/// The recent history shows an attack under way.
pub open spec fn attack_progression(h: Seq<RequestRecord>) -> bool {
    h.len() >= 3 && {
        let r = recent(h);
        count_suspicious(r) >= 3 || path_enumeration(r) || suspicious_status_pattern(r)
    }
}

/// Whether two paths are similar.
pub fn paths_similar(p1: &str, p2: &str) -> (b: bool)
    ensures
        b == similar_paths(p1@, p2@),
{
    let c1 = chars_of(p1);
    let c2 = chars_of(p2);
    let a = split_char(c1.as_slice(), '/');
    let b = split_char(c2.as_slice(), '/');
    let common = if a.len() < b.len() { a.len() } else { b.len() };
    let longest = if a.len() < b.len() { b.len() } else { a.len() };
    let mut eq: usize = 0;
    let mut i: usize = 0;
    while i < common
        invariant
            i <= common,
            common <= a@.len(),
            common <= b@.len(),
            eq <= i,
            eq == equal_positions(views(a@), views(b@), i as nat),
        decreases common - i,
    {
        assert(views(a@)[i as int] == a@[i as int]@);
        assert(views(b@)[i as int] == b@[i as int]@);
        if vec_eq(&a[i], &b[i]) {
            eq = eq + 1;
        }
        i = i + 1;
    }
    (eq as u128) * 10 > (longest as u128) * 7
}

/// Whether the recent history of a client shows an attack under way: at least
/// three requests, and among the last ten at least three suspicious ones, or
/// path enumeration, or a suspicious pattern of error statuses.
pub fn has_attack_progression(h: &[RequestRecord]) -> (b: bool)
    ensures
        b == attack_progression(h@),
{
    if h.len() < 3 {
        return false;
    }
    let n: usize = if h.len() < 10 { h.len() } else { 10 };
    let ghost r = recent(h@);
    let mut susp: usize = 0;
    let mut errs: usize = 0;
    let mut nf: usize = 0;
    let mut i: usize = 0;
    while i < n
        invariant
            3 <= h@.len(),
            i <= n,
            n == r.len(),
            r == recent(h@),
            susp == count_suspicious(r.take(i as int)),
            errs == count_errors(r.take(i as int)),
            nf == count_not_found(r.take(i as int)),
            susp <= i && errs <= i && nf <= i,
        decreases n - i,
    {
        let rec = &h[h.len() - 1 - i];
        proof {
            assert(r.take(i + 1).drop_last() =~= r.take(i as int));
            assert(r.take(i + 1).last() == r[i as int]);
        }
        if rec.is_suspicious {
            susp = susp + 1;
        }
        if rec.status_code >= 400 {
            errs = errs + 1;
        }
        if rec.status_code == 404 {
            nf = nf + 1;
        }
        i = i + 1;
    }
    assert(r.take(n as int) =~= r);
    if susp >= 3 {
        return true;
    }
    let mut steps: usize = 0;
    if n >= 5 {
        let mut k: usize = 1;
        while k < n
            invariant
                1 <= k <= n,
                n == r.len(),
                n <= 10,
                r == recent(h@),
                steps <= k,
                steps == similar_steps(r, k as nat),
            decreases n - k,
        {
            let prev = &h[h.len() - 1 - (k - 1)];
            let cur = &h[h.len() - 1 - k];
            if paths_similar(prev.url.as_str(), cur.url.as_str()) {
                steps = steps + 1;
            }
            k = k + 1;
        }
        if steps >= 3 {
            return true;
        }
    }
    n > 0 && (2 * errs > n || nf >= 5)
}

/// The last (up to) ten requests of a history, oldest first.
pub open spec fn last_ten(h: Seq<RequestRecord>) -> Seq<RequestRecord> {
    let m = if h.len() < 10 { h.len() } else { 10 };
    h.subrange(h.len() - m, h.len() as int)
}

spec fn count_where(s: Seq<RequestRecord>, p: spec_fn(RequestRecord) -> bool) -> nat
    decreases s.len(),
{
    if s.len() == 0 { 0 } else { count_where(s.drop_last(), p) + if p(s.last()) { 1nat } else { 0nat } }
}

proof fn lemma_count_where_filter(s: Seq<RequestRecord>, p: spec_fn(RequestRecord) -> bool)
    ensures
        count_where(s, p) == s.filter(p).len(),
    decreases s.len(),
{
    if s.len() > 0 {
        lemma_count_where_filter(s.drop_last(), p);
        s.drop_last().lemma_filter_push(s.last(), p);
        assert(s.drop_last().push(s.last()) =~= s);
    } else {
        assert(s.filter(p) =~= Seq::<RequestRecord>::empty()) by {
            reveal(Seq::filter);
        }
    }
}

proof fn lemma_count_where_front(s: Seq<RequestRecord>, p: spec_fn(RequestRecord) -> bool)
    requires
        s.len() > 0,
    ensures
        count_where(s, p) == count_where(s.drop_first(), p) + if p(s[0]) { 1nat } else { 0nat },
    decreases s.len(),
{
    if s.len() > 1 {
        lemma_count_where_front(s.drop_last(), p);
        assert(s.drop_last().drop_first() =~= s.drop_first().drop_last());
        assert(s.drop_first().last() == s.last());
        assert(s.drop_last()[0] == s[0]);
        assert(count_where(s.drop_first(), p) == count_where(s.drop_first().drop_last(), p)
            + if p(s.drop_first().last()) { 1nat } else { 0nat });
    } else {
        assert(s.drop_first().len() == 0);
        assert(s.drop_last().len() == 0);
        assert(s.last() == s[0]);
        assert(count_where(s.drop_last(), p) == 0);
        assert(count_where(s.drop_first(), p) == 0);
    }
}

proof fn lemma_count_where_reversed(a: Seq<RequestRecord>, b: Seq<RequestRecord>, p: spec_fn(RequestRecord) -> bool)
    requires
        a.len() == b.len(),
        forall|i: int| 0 <= i < a.len() ==> #[trigger] a[i] == b[b.len() - 1 - i],
    ensures
        count_where(a, p) == count_where(b, p),
    decreases a.len(),
{
    if a.len() > 0 {
        let a1 = a.drop_last();
        let b1 = b.drop_first();
        assert forall|i: int| 0 <= i < a1.len() implies #[trigger] a1[i] == b1[b1.len() - 1 - i] by {
            assert(a[i] == b[b.len() - 1 - i]);
        }
        lemma_count_where_reversed(a1, b1, p);
        lemma_count_where_front(b, p);
        assert(a[a.len() - 1] == b[0]);
    }
}

proof fn lemma_counts_match(s: Seq<RequestRecord>)
    ensures
        count_errors(s) == count_where(s, |r: RequestRecord| r.status_code >= 400),
        count_not_found(s) == count_where(s, |r: RequestRecord| r.status_code == 404),
        count_suspicious(s) == count_where(s, |r: RequestRecord| r.is_suspicious),
    decreases s.len(),
{
    if s.len() > 0 {
        lemma_counts_match(s.drop_last());
    }
}

proof fn lemma_window_count(h: Seq<RequestRecord>, p: spec_fn(RequestRecord) -> bool)
    ensures
        count_where(recent(h), p) == last_ten(h).filter(p).len(),
{
    let w = last_ten(h);
    let r = recent(h);
    assert forall|i: int| 0 <= i < r.len() implies #[trigger] r[i] == w[w.len() - 1 - i] by {}
    lemma_count_where_reversed(r, w, p);
    lemma_count_where_filter(w, p);
}

/// Attack progression needs at least three requests; with three or more, it
/// is reported when, among the last (up to) ten requests, at least three
/// were flagged suspicious, more than half were answered with a status of
/// 400 or above, or at least five were answered 404.
pub proof fn law_attack_progression(h: Seq<RequestRecord>)
    ensures
        h.len() < 3 ==> !attack_progression(h),
        h.len() >= 3 && last_ten(h).filter(|r: RequestRecord| r.is_suspicious).len() >= 3 ==> attack_progression(h),
        h.len() >= 3 && 2 * last_ten(h).filter(|r: RequestRecord| r.status_code >= 400).len() > last_ten(h).len()
            ==> attack_progression(h),
        h.len() >= 3 && last_ten(h).filter(|r: RequestRecord| r.status_code == 404).len() >= 5
            ==> attack_progression(h),
{
    let r = recent(h);
    lemma_counts_match(r);
    lemma_window_count(h, |x: RequestRecord| x.is_suspicious);
    lemma_window_count(h, |x: RequestRecord| x.status_code >= 400);
    lemma_window_count(h, |x: RequestRecord| x.status_code == 404);
}

proof fn lemma_similar_steps_grow(s: Seq<RequestRecord>, i: nat, k: nat)
    requires
        i <= k,
    ensures
        similar_steps(s, i) <= similar_steps(s, k),
    decreases k - i,
{
    if i < k {
        lemma_similar_steps_grow(s, i, (k - 1) as nat);
    }
}

/// With at least five requests in the last ten, three pairs of consecutive
/// requests there whose paths are similar (see [`similar_paths`]) make an
/// attack progression; and when no such enumeration is seen, fewer than
/// three of the last ten were flagged, at most half failed and fewer than
/// five were 404, none is reported.
pub proof fn law_attack_progression_paths(h: Seq<RequestRecord>, a: int, b: int, c: int)
    ensures
        ({
            let w = last_ten(h);
            &&& h.len() >= 5
            &&& 0 <= a < b < c < w.len() - 1
            &&& similar_paths(w[a + 1].url@, w[a].url@)
            &&& similar_paths(w[b + 1].url@, w[b].url@)
            &&& similar_paths(w[c + 1].url@, w[c].url@)
        }) ==> attack_progression(h),
        h.len() >= 3 && !path_enumeration(recent(h))
            && last_ten(h).filter(|r: RequestRecord| r.is_suspicious).len() < 3
            && 2 * last_ten(h).filter(|r: RequestRecord| r.status_code >= 400).len() <= last_ten(h).len()
            && last_ten(h).filter(|r: RequestRecord| r.status_code == 404).len() < 5
            ==> !attack_progression(h),
{
    let w = last_ten(h);
    let r = recent(h);
    let m = w.len();
    lemma_counts_match(r);
    lemma_window_count(h, |x: RequestRecord| x.is_suspicious);
    lemma_window_count(h, |x: RequestRecord| x.status_code >= 400);
    lemma_window_count(h, |x: RequestRecord| x.status_code == 404);
    if h.len() >= 5 && 0 <= a < b < c < m - 1 && similar_paths(w[a + 1].url@, w[a].url@)
        && similar_paths(w[b + 1].url@, w[b].url@) && similar_paths(w[c + 1].url@, w[c].url@) {
        // In recent order (newest first) the pair (w[j + 1], w[j]) is the
        // step ending at index m - 1 - j.
        let ka = (m - a) as nat;
        let kb = (m - b) as nat;
        let kc = (m - c) as nat;
        assert(r[ka - 2] == w[a + 1] && r[ka - 1] == w[a]);
        assert(r[kb - 2] == w[b + 1] && r[kb - 1] == w[b]);
        assert(r[kc - 2] == w[c + 1] && r[kc - 1] == w[c]);
        assert(similar_steps(r, kc) == similar_steps(r, (kc - 1) as nat) + 1);
        assert(similar_steps(r, kb) == similar_steps(r, (kb - 1) as nat) + 1);
        assert(similar_steps(r, ka) == similar_steps(r, (ka - 1) as nat) + 1);
        lemma_similar_steps_grow(r, kc, (kb - 1) as nat);
        lemma_similar_steps_grow(r, kb, (ka - 1) as nat);
        lemma_similar_steps_grow(r, ka, m as nat);
        assert(similar_steps(r, m as nat) >= 3);
        assert(r.len() == m);
    }
}

} // verus!
