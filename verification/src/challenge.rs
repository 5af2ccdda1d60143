//! Challenge tokens: HMAC-signed `window|nonce|signature` strings bound to a
//! client's IP and user agent, valid in the current and the previous
//! five-minute window, and accepted only once within ten minutes.
use vstd::prelude::*;
use dashmap::DashMap;
use crate::clock::{NANOS_PER_SEC, unix_time_nanos, random_uuid_bytes};
use crate::encoding::{sha256, law_hex_roundtrip, hex_encode_spec, hex_decode_spec, hmac_sha256, is_lower_hex, hex_encode, hex_decode,
    hmac_sha256_sign, hmac_sha256_verify, sha256_digest, lemma_hex_encode_shape};
use crate::text::{decimal, split_spec, parse_u64_spec, chars_of, string_from_chars, split_char, parse_u64,
    push_decimal, append_chars, slice_chars, lemma_decimal, is_digit, law_parse_decimal,
    lemma_split_without_sep, lemma_split_after_sep};

verus! {

/// Seconds during which a verified token is refused as a replay.
pub const TOKEN_REUSE_WINDOW_SECS: u64 = 600;
/// Hex characters in a nonce.
pub const NONCE_LENGTH: usize = 16;
/// Seconds per token time window.
pub const TIME_WINDOW_SECS: u64 = 300;

/// Outcome of checking a challenge token.
#[derive(Debug, Clone, Copy, PartialEq, Eq, Structural)]
pub enum ChallengeStatus {
    Valid,
    Invalid,
    Expired,
    Missing,
    Replayed,
}

/// The time window a moment (in Unix nanoseconds) falls in.
pub open spec fn window_of(now: u64) -> int {
    now as int / NANOS_PER_SEC as int / TIME_WINDOW_SECS as int
}

/// The separator of token fields.
pub open spec fn bar() -> Seq<char> {
    seq!['|']
}

/// The text that a token's signature covers.
pub open spec fn signing_input(ip: Seq<char>, ua: Seq<char>, ts_text: Seq<char>, nonce: Seq<char>) -> Seq<char> {
    ip + bar() + ua + bar() + ts_text + bar() + nonce
}

/// The signature field of a token.
pub open spec fn signature_text(secret: Seq<char>, ip: Seq<char>, ua: Seq<char>, ts_text: Seq<char>, nonce: Seq<char>) -> Seq<char> {
    hex_encode_spec(hmac_sha256(secret, signing_input(ip, ua, ts_text, nonce)))
}

/// The token issued in window `ts` with `nonce`.
pub open spec fn token_spec(ip: Seq<char>, ua: Seq<char>, secret: Seq<char>, ts: u64, nonce: Seq<char>) -> Seq<char> {
    decimal(ts as nat) + bar() + nonce + bar() + signature_text(secret, ip, ua, decimal(ts as nat), nonce)
}

/// A use recorded at `used` still counts at `now`.
pub open spec fn still_fresh(used: u64, now: u64) -> bool {
    used <= now && (now - used) < TOKEN_REUSE_WINDOW_SECS as int * NANOS_PER_SEC as int
}

/// The store holds a use of `key` that still counts at `now`.
pub open spec fn is_replayed(used: Map<Seq<char>, u64>, key: Seq<char>, now: u64) -> bool {
    used.dom().contains(key) && still_fresh(used[key], now)
}

/// The store after recording a use of `key` at `t` (an older use is replaced).
pub open spec fn record_use(used: Map<Seq<char>, u64>, key: Seq<char>, t: u64) -> Map<Seq<char>, u64> {
    used.insert(key, t)
}

/// The store without uses that no longer count at `now`.
pub open spec fn drop_stale(used: Map<Seq<char>, u64>, now: u64) -> Map<Seq<char>, u64> {
    Map::new(|k: Seq<char>| used.dom().contains(k) && still_fresh(used[k], now), |k: Seq<char>| used[k])
}

/// What checking `token` at `now` against the store `used` yields.
pub open spec fn verify_spec(
    used: Map<Seq<char>, u64>,
    token: Option<Seq<char>>,
    ip: Seq<char>,
    ua: Seq<char>,
    secret: Seq<char>,
    now: u64,
) -> ChallengeStatus {
    match token {
        None => ChallengeStatus::Missing,
        Some(t) => if t.len() == 0 {
            ChallengeStatus::Missing
        } else {
            let parts = split_spec(t, '|');
            if parts.len() != 3 {
                ChallengeStatus::Invalid
            } else {
                match parse_u64_spec(parts[0]) {
                    None => ChallengeStatus::Invalid,
                    Some(ts) => {
                        let cur = window_of(now);
                        if ts != cur && ts != cur - 1 {
                            ChallengeStatus::Expired
                        } else {
                            let key = decimal(ts as nat) + bar() + parts[1] + bar() + parts[2];
                            if is_replayed(used, key, now) {
                                ChallengeStatus::Replayed
                            } else {
                                match hex_decode_spec(parts[2]) {
                                    None => ChallengeStatus::Invalid,
                                    Some(sig) => if sig == hmac_sha256(secret, signing_input(ip, ua, parts[0], parts[1])) {
                                        ChallengeStatus::Valid
                                    } else {
                                        ChallengeStatus::Invalid
                                    },
                                }
                            }
                        }
                    },
                }
            }
        },
    }
}

/// The replay key of a token that reached the replay check.
pub open spec fn token_key(t: Seq<char>) -> Seq<char> {
    let parts = split_spec(t, '|');
    decimal(parse_u64_spec(parts[0]).unwrap() as nat) + bar() + parts[1] + bar() + parts[2]
}

/// The concurrent map of used tokens to the time of their use.
pub type UsedTable = DashMap<String, u64>;

/// The uses held by a concurrent map: token keys to Unix nanoseconds.
pub uninterp spec fn used_table(m: UsedTable) -> Map<Seq<char>, u64>;

/// An empty map (`DashMap::new`).
#[verifier::external_body]
fn used_new() -> (fresh: UsedTable)
    ensures
        used_table(fresh).dom() == Set::<Seq<char>>::empty(),
{
    DashMap::new()
}

/// The recorded time of a key (`DashMap::get`).
#[verifier::external_body]
fn used_get(m: &UsedTable, k: &str) -> (r: Option<u64>)
    ensures
        match r {
            Some(t) => used_table(*m).dom().contains(k@) && t == used_table(*m)[k@],
            None => !used_table(*m).dom().contains(k@),
        },
{
    m.get(k).map(|e| *e.value())
}

/// Records a time under a key, replacing any (`DashMap::insert`).
#[verifier::external_body]
fn used_insert(m: &mut UsedTable, k: String, t: u64)
    ensures
        used_table(*final(m)) == used_table(*old(m)).insert(k@, t),
{
    m.insert(k, t);
}

/// The number of keys (`DashMap::len`).
#[verifier::external_body]
fn used_len(m: &UsedTable) -> (n: usize)
    ensures
        n == used_table(*m).dom().len(),
{
    m.len()
}

/// Keeps the uses that still count at `now` (`DashMap::retain`).
#[verifier::external_body]
fn used_retain_fresh(m: &mut UsedTable, now: u64)
    ensures
        used_table(*final(m)) == drop_stale(used_table(*old(m)), now),
{
    m.retain(|_, t| is_fresh(*t, now));
}

/// Whether a use recorded at `used` still counts at `now`.
fn is_fresh(used: u64, now: u64) -> (b: bool)
    ensures
        b == still_fresh(used, now),
{
    used <= now && now - used < TOKEN_REUSE_WINDOW_SECS * NANOS_PER_SEC
}

/// Tokens verified recently, with the time (Unix nanoseconds) of their use.
pub struct UsedTokens {
    entries: UsedTable,
}

impl UsedTokens {
    /// The recorded uses, by token key.
    pub closed spec fn uses(&self) -> Map<Seq<char>, u64> {
        used_table(self.entries)
    }

    /// An empty store.
    pub fn new() -> (u: Self)
        ensures
            u.uses() == Map::<Seq<char>, u64>::empty(),
    {
        let u = UsedTokens { entries: used_new() };
        assert(u.uses() =~= Map::<Seq<char>, u64>::empty());
        u
    }

    /// Number of recorded uses.
    pub fn len(&self) -> (n: usize)
        ensures
            n == self.uses().dom().len(),
    {
        used_len(&self.entries)
    }

    /// Drops every use that no longer counts at `now`.
    pub fn cleanup(&mut self, now: u64)
        ensures
            final(self).uses() == drop_stale(old(self).uses(), now),
    {
        used_retain_fresh(&mut self.entries, now);
    }

    /// Checks a challenge token at `now` (Unix nanoseconds). A valid token is
    /// recorded as used, and stale uses are dropped; otherwise the store is
    /// left as it was.
    pub fn verify_at(&mut self, token: Option<&str>, ip: &str, user_agent: &str, secret: &str, now: u64) -> (st: ChallengeStatus)
        requires
            window_of(now) >= 1,
        ensures
            st == verify_spec(old(self).uses(), match token { Some(t) => Some(t@), None => None }, ip@, user_agent@, secret@, now),
            st == ChallengeStatus::Valid ==> final(self).uses() == drop_stale(
                record_use(old(self).uses(), token_key(token.unwrap()@), now), now),
            st != ChallengeStatus::Valid ==> final(self).uses() == old(self).uses(),
    {
        let t = match token {
            Some(t) => t,
            None => return ChallengeStatus::Missing,
        };
        if t.is_empty() {
            return ChallengeStatus::Missing;
        }
        let tc = chars_of(t);
        let parts = split_char(tc.as_slice(), '|');
        if parts.len() != 3 {
            return ChallengeStatus::Invalid;
        }
        assert(parts@[0]@ == split_spec(t@, '|')[0]);
        assert(parts@[1]@ == split_spec(t@, '|')[1]);
        assert(parts@[2]@ == split_spec(t@, '|')[2]);
        let ts = match parse_u64(parts[0].as_slice()) {
            Some(v) => v,
            None => return ChallengeStatus::Invalid,
        };
        let cur = now / NANOS_PER_SEC / TIME_WINDOW_SECS;
        if ts != cur && ts != cur - 1 {
            return ChallengeStatus::Expired;
        }
        let mut key: Vec<char> = Vec::new();
        push_decimal(&mut key, ts);
        key.push('|');
        append_chars(&mut key, parts[1].as_slice());
        key.push('|');
        append_chars(&mut key, parts[2].as_slice());
        assert(key@ =~= decimal(ts as nat) + bar() + parts@[1]@ + bar() + parts@[2]@);
        let key_text = string_from_chars(key.as_slice());
        let replayed = match used_get(&self.entries, key_text.as_str()) {
            Some(t) => is_fresh(t, now),
            None => false,
        };
        if replayed {
            return ChallengeStatus::Replayed;
        }
        let mut raw: Vec<char> = chars_of(ip);
        raw.push('|');
        append_chars(&mut raw, chars_of(user_agent).as_slice());
        raw.push('|');
        append_chars(&mut raw, parts[0].as_slice());
        raw.push('|');
        append_chars(&mut raw, parts[1].as_slice());
        assert(raw@ =~= signing_input(ip@, user_agent@, parts@[0]@, parts@[1]@));
        let sig_text = string_from_chars(parts[2].as_slice());
        let sig = match hex_decode(sig_text.as_str()) {
            Some(b) => b,
            None => return ChallengeStatus::Invalid,
        };
        let raw_text = string_from_chars(raw.as_slice());
        if hmac_sha256_verify(secret, raw_text.as_str(), sig.as_slice()) {
            used_insert(&mut self.entries, key_text, now);
            self.cleanup(now);
            ChallengeStatus::Valid
        } else {
            ChallengeStatus::Invalid
        }
    }

    /// Checks a challenge token against the wall clock.
    pub fn verify(&mut self, token: Option<&str>, ip: &str, user_agent: &str, secret: &str) -> (st: ChallengeStatus)
        ensures
            exists|now: u64| #[trigger] window_of(now) >= 1
                && st == verify_spec(old(self).uses(), match token { Some(t) => Some(t@), None => None }, ip@, user_agent@, secret@, now)
                && (st == ChallengeStatus::Valid ==> final(self).uses() == drop_stale(
                    record_use(old(self).uses(), token_key(token.unwrap()@), now), now))
                && (st != ChallengeStatus::Valid ==> final(self).uses() == old(self).uses()),
    {
        let now = unix_time_nanos();
        let now = if now < TIME_WINDOW_SECS * NANOS_PER_SEC { TIME_WINDOW_SECS * NANOS_PER_SEC } else { now };
        assert(window_of(now) >= 1) by (nonlinear_arith)
            requires now >= 300_000_000_000u64;
        let st = self.verify_at(token, ip, user_agent, secret, now);
        st
    }
}

proof fn lemma_lower_hex_no_bar(s: Seq<char>)
    requires
        is_lower_hex(s),
    ensures
        !s.contains('|'),
{
    if s.contains('|') {
        let i = choose|i: int| 0 <= i < s.len() && s[i] == '|';
        assert(('0' <= s[i] && s[i] <= '9') || ('a' <= s[i] && s[i] <= 'f'));
    }
}

proof fn lemma_decimal_no_bar(n: nat)
    ensures
        !decimal(n).contains('|'),
{
    lemma_decimal(n);
    let d = decimal(n);
    if d.contains('|') {
        let i = choose|i: int| 0 <= i < d.len() && d[i] == '|';
        assert(is_digit(d[i]));
    }
}

/// The three fields of an issued token are its window, its nonce and its signature.
pub proof fn lemma_token_fields(ip: Seq<char>, ua: Seq<char>, secret: Seq<char>, ts: u64, nonce: Seq<char>)
    requires
        is_lower_hex(nonce),
    ensures
        split_spec(token_spec(ip, ua, secret, ts, nonce), '|') == seq![
            decimal(ts as nat),
            nonce,
            signature_text(secret, ip, ua, decimal(ts as nat), nonce),
        ],
{
    let d = decimal(ts as nat);
    let sig = signature_text(secret, ip, ua, d, nonce);
    lemma_decimal_no_bar(ts as nat);
    lemma_lower_hex_no_bar(nonce);
    lemma_hex_encode_shape(hmac_sha256(secret, signing_input(ip, ua, d, nonce)));
    lemma_lower_hex_no_bar(sig);
    lemma_split_without_sep(d, '|');
    lemma_split_after_sep(d, nonce, '|');
    assert(d + bar() + nonce =~= d + seq!['|'] + nonce);
    lemma_split_after_sep(d + bar() + nonce, sig, '|');
    assert(token_spec(ip, ua, secret, ts, nonce) =~= (d + bar() + nonce) + seq!['|'] + sig);
    assert(split_spec(token_spec(ip, ua, secret, ts, nonce), '|') =~= seq![d, nonce, sig]);
}

/// A token issued in window `ts` for a client is accepted for that client in
/// window `ts` or the next one, unless a use of it still counts; once accepted
/// it is refused as a replay for the next ten minutes (while still in those
/// windows).
pub proof fn law_issued_token_verifies_once(
    used: Map<Seq<char>, u64>,
    ip: Seq<char>,
    ua: Seq<char>,
    secret: Seq<char>,
    ts: u64,
    nonce: Seq<char>,
    now1: u64,
    now2: u64,
)
    requires
        is_lower_hex(nonce),
        window_of(now1) == ts || window_of(now1) == ts + 1,
        window_of(now2) == ts || window_of(now2) == ts + 1,
        !is_replayed(used, token_spec(ip, ua, secret, ts, nonce), now1),
        still_fresh(now1, now2),
    ensures
        verify_spec(used, Some(token_spec(ip, ua, secret, ts, nonce)), ip, ua, secret, now1) == ChallengeStatus::Valid,
        token_key(token_spec(ip, ua, secret, ts, nonce)) == token_spec(ip, ua, secret, ts, nonce),
        verify_spec(
            drop_stale(record_use(used, token_spec(ip, ua, secret, ts, nonce), now1), now1),
            Some(token_spec(ip, ua, secret, ts, nonce)),
            ip, ua, secret, now2,
        ) == ChallengeStatus::Replayed,
{
    let t = token_spec(ip, ua, secret, ts, nonce);
    let d = decimal(ts as nat);
    lemma_token_fields(ip, ua, secret, ts, nonce);
    law_parse_decimal(ts);
    lemma_decimal(ts as nat);
    assert(t.len() > 0);
    let parts = split_spec(t, '|');
    assert(parts[0] == d);
    assert(parts[1] == nonce);
    let key = d + bar() + parts[1] + bar() + parts[2];
    assert(key =~= t);
    law_hex_roundtrip(hmac_sha256(secret, signing_input(ip, ua, d, nonce)));
    let s1 = drop_stale(record_use(used, t, now1), now1);
    assert(still_fresh(now1, now1));
    assert(s1.dom().contains(t) && s1[t] == now1);
    assert(is_replayed(s1, t, now2));
}

/// Builds the token for window `ts` and `nonce`.
pub fn challenge_token_at(ip: &str, user_agent: &str, secret: &str, ts: u64, nonce: &str) -> (tok: String)
    ensures
        tok@ == token_spec(ip@, user_agent@, secret@, ts, nonce@),
{
    let mut ts_text: Vec<char> = Vec::new();
    push_decimal(&mut ts_text, ts);
    assert(ts_text@ =~= decimal(ts as nat));
    let mut raw: Vec<char> = chars_of(ip);
    raw.push('|');
    append_chars(&mut raw, chars_of(user_agent).as_slice());
    raw.push('|');
    append_chars(&mut raw, ts_text.as_slice());
    raw.push('|');
    append_chars(&mut raw, chars_of(nonce).as_slice());
    assert(raw@ =~= signing_input(ip@, user_agent@, decimal(ts as nat), nonce@));
    let raw_text = string_from_chars(raw.as_slice());
    let tag = hmac_sha256_sign(secret, raw_text.as_str());
    let signature = hex_encode(tag.as_slice());
    let mut out = ts_text;
    out.push('|');
    append_chars(&mut out, chars_of(nonce).as_slice());
    out.push('|');
    append_chars(&mut out, chars_of(signature.as_str()).as_slice());
    assert(out@ =~= token_spec(ip@, user_agent@, secret@, ts, nonce@));
    string_from_chars(out.as_slice())
}

/// The sixteen big-endian bytes of a 128-bit time.
pub open spec fn be_bytes(t: u128) -> Seq<u8> {
    Seq::new(16, |k: int| ((t >> (((15 - k) * 8) as u128)) & 0xff) as u8)
}

/// The nonce made from UUID bytes and a time in nanoseconds: the first
/// sixteen hex characters of the SHA-256 of the bytes followed by the time's
/// sixteen big-endian bytes.
pub open spec fn nonce_text(uuid: Seq<u8>, t: u128) -> Seq<char> {
    hex_encode_spec(sha256(uuid + be_bytes(t))).take(NONCE_LENGTH as int)
}

/// The nonce made from `uuid` and `t` (see [`nonce_text`]).
pub fn nonce_from(uuid: &[u8], t: u128) -> (n: String)
    ensures
        n@ == nonce_text(uuid@, t),
        n@.len() == NONCE_LENGTH,
        is_lower_hex(n@),
{
    let mut data: Vec<u8> = Vec::new();
    let mut j: usize = 0;
    while j < uuid.len()
        invariant
            j <= uuid@.len(),
            data@ == uuid@.take(j as int),
        decreases uuid.len() - j,
    {
        data.push(uuid[j]);
        assert(uuid@.take(j + 1) =~= uuid@.take(j as int).push(uuid@[j as int]));
        j = j + 1;
    }
    assert(uuid@.take(uuid@.len() as int) =~= uuid@);
    let mut k: u32 = 0;
    while k < 16
        invariant
            k <= 16,
            data@ == uuid@ + be_bytes(t).take(k as int),
        decreases 16 - k,
    {
        let shift: u128 = ((15 - k) * 8) as u128;
        let byte = ((t >> shift) & 0xff) as u8;
        assert(byte == be_bytes(t)[k as int]);
        data.push(byte);
        assert(be_bytes(t).take(k + 1) =~= be_bytes(t).take(k as int).push(be_bytes(t)[k as int]));
        assert(uuid@ + be_bytes(t).take(k + 1) =~= (uuid@ + be_bytes(t).take(k as int)).push(byte));
        k = k + 1;
    }
    assert(be_bytes(t).take(16) =~= be_bytes(t));
    let digest = sha256_digest(data.as_slice());
    let hex = hex_encode(digest.as_slice());
    proof {
        lemma_hex_encode_shape(digest@);
    }
    let hc = chars_of(hex.as_str());
    let first = slice_chars(hc.as_slice(), 0, NONCE_LENGTH);
    assert(first@ =~= hex_encode_spec(digest@).take(NONCE_LENGTH as int));
    assert forall|i: int| 0 <= i < first@.len() implies (('0' <= #[trigger] first@[i] && first@[i] <= '9') || ('a' <= first@[i] && first@[i] <= 'f')) by {
        assert(first@[i] == hc@[i]);
    }
    string_from_chars(first.as_slice())
}

/// Sixteen lowercase hex characters derived from a random UUID and the clock.
pub fn generate_nonce() -> (n: String)
    ensures
        n@.len() == NONCE_LENGTH,
        is_lower_hex(n@),
        exists|uuid: Seq<u8>, t: u128| uuid.len() == 16 && n@ == #[trigger] nonce_text(uuid, t),
{
    let uuid = random_uuid_bytes();
    let t = unix_time_nanos() as u128;
    nonce_from(uuid.as_slice(), t)
}

/// The window the clock reads now.
pub fn current_time_window() -> (w: u64)
    ensures
        exists|now: u64| w == #[trigger] window_of(now),
{
    let now = unix_time_nanos();
    let w = now / NANOS_PER_SEC / TIME_WINDOW_SECS;
    assert(w == window_of(now));
    w
}

/// Drops the uses of tokens that no longer count now.
pub fn cleanup_used_tokens(tokens: &mut UsedTokens)
    ensures
        exists|now: u64| final(tokens).uses() == #[trigger] drop_stale(old(tokens).uses(), now),
{
    let now = unix_time_nanos();
    tokens.cleanup(now);
}

/// Issues a token for the current window with a fresh nonce.
pub fn get_challenge_token(ip: &str, user_agent: &str, secret: &str) -> (tok: String)
    ensures
        exists|ts: u64, nonce: Seq<char>| nonce.len() == NONCE_LENGTH && is_lower_hex(nonce)
            && tok@ == token_spec(ip@, user_agent@, secret@, ts, nonce),
{
    let ts = current_time_window();
    let nonce = generate_nonce();
    challenge_token_at(ip, user_agent, secret, ts, nonce.as_str())
}

} // verus!
