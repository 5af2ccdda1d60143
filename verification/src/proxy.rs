//! The reverse proxy's decisions: cookie parsing, the order of checks a
//! request goes through before it is forwarded (site mode, rate limit,
//! challenge, bans, reputation, upload checks, rule detection), the upload
//! check itself and the beacon that is injected into forwarded HTML.
//!
//! The checks that need the network or the database are performed by the
//! caller; the checkpoint below says which check comes next and what to answer.
use vstd::prelude::*;
use crate::text::{contains_text, 
    chars_of, string_from_chars, trim, trim_spec, find_char, first_index_of, slice_chars,
    split_char, split_spec, views, vec_eq, append_chars, contains, contains_seq, rfind,
    occurs_at,
};
use crate::rate_limit::{BlockReason, RateLimitResult};
use crate::challenge::ChallengeStatus;
use vstd::slice::slice_to_vec;
use vstd::string::StrSliceExecFns;

verus! {

// ---------------------------------------------------------------- cookies

/// One `name=value` piece of a `Cookie` header: both sides trimmed, split at
/// the first `=`; a piece without `=` holds no cookie.
pub open spec fn cookie_pair(piece: Seq<char>) -> Option<(Seq<char>, Seq<char>)> {
    let p = trim_spec(piece);
    match first_index_of(p, '=') {
        Some(i) => Some((trim_spec(p.take(i)), trim_spec(p.skip(i + 1)))),
        None => None,
    }
}

/// The value of the first piece whose name is `name`.
pub open spec fn cookie_lookup(pieces: Seq<Seq<char>>, name: Seq<char>) -> Option<Seq<char>>
    decreases pieces.len(),
{
    if pieces.len() == 0 {
        None
    } else {
        match cookie_pair(pieces[0]) {
            Some(kv) => if kv.0 == name {
                Some(kv.1)
            } else {
                cookie_lookup(pieces.drop_first(), name)
            },
            None => cookie_lookup(pieces.drop_first(), name),
        }
    }
}

/// Every cookie of the pieces, in order.
pub open spec fn cookie_pairs(pieces: Seq<Seq<char>>) -> Seq<(Seq<char>, Seq<char>)>
    decreases pieces.len(),
{
    if pieces.len() == 0 {
        Seq::empty()
    } else {
        match cookie_pair(pieces[0]) {
            Some(kv) => seq![kv] + cookie_pairs(pieces.drop_first()),
            None => cookie_pairs(pieces.drop_first()),
        }
    }
}

/// The cookie of one piece of a `Cookie` header.
fn split_cookie_pair(piece: &[char]) -> (r: Option<(Vec<char>, Vec<char>)>)
    ensures
        match r {
            Some(kv) => cookie_pair(piece@) == Some((kv.0@, kv.1@)),
            None => cookie_pair(piece@) is None,
        },
{
    let p = trim(piece);
    proof {
        crate::text::lemma_first_index_of(p@, '=');
    }
    match find_char(p.as_slice(), '=') {
        Some(i) => {
            assert(i < p@.len());
            let k = trim(slice_chars(p.as_slice(), 0, i).as_slice());
            let v = trim(slice_chars(p.as_slice(), i + 1, p.len()).as_slice());
            proof {
                assert(p@.subrange(0, i as int) =~= p@.take(i as int));
                assert(p@.subrange(i + 1, p@.len() as int) =~= p@.skip(i + 1));
            }
            Some((k, v))
        },
        None => None,
    }
}

/// The value of cookie `name` in a `Cookie` header (`a=1; b=2`): the first
/// `;`-separated piece whose trimmed name is `name`, its value trimmed.
pub fn extract_cookie_value(cookie_str: &str, name: &str) -> (r: Option<String>)
    ensures
        match r {
            Some(v) => cookie_lookup(split_spec(cookie_str@, ';'), name@) == Some(v@),
            None => cookie_lookup(split_spec(cookie_str@, ';'), name@) is None,
        },
{
    let text = chars_of(cookie_str);
    let wanted = chars_of(name);
    let pieces = split_char(text.as_slice(), ';');
    let ghost all = views(pieces@);
    let mut i: usize = 0;
    assert(all.skip(0) =~= all);
    while i < pieces.len()
        invariant
            i <= pieces@.len(),
            all == views(pieces@),
            all == split_spec(cookie_str@, ';'),
            wanted@ == name@,
            cookie_lookup(all, name@) == cookie_lookup(all.skip(i as int), name@),
        decreases pieces.len() - i,
    {
        assert(all.skip(i as int).drop_first() =~= all.skip(i + 1));
        assert(all.skip(i as int)[0] == pieces@[i as int]@);
        match split_cookie_pair(pieces[i].as_slice()) {
            Some(kv) => {
                if vec_eq(&kv.0, &wanted) {
                    return Some(string_from_chars(kv.1.as_slice()));
                }
            },
            None => {},
        }
        i = i + 1;
    }
    None
}

/// The cookies of a `Cookie` header, in order of appearance.
pub fn parse_cookie_header(cookie_str: &str) -> (r: Vec<(String, String)>)
    ensures
        r@.map_values(|kv: (String, String)| (kv.0@, kv.1@)) == cookie_pairs(split_spec(cookie_str@, ';')),
{
    let text = chars_of(cookie_str);
    let pieces = split_char(text.as_slice(), ';');
    let ghost all = views(pieces@);
    let mut out: Vec<(String, String)> = Vec::new();
    let mut i: usize = 0;
    assert(all.take(0) =~= Seq::<Seq<char>>::empty());
    proof {
        lemma_cookie_pairs_append(Seq::<Seq<char>>::empty(), Seq::<Seq<char>>::empty());
    }
    while i < pieces.len()
        invariant
            i <= pieces@.len(),
            all == views(pieces@),
            all == split_spec(cookie_str@, ';'),
            out@.map_values(|kv: (String, String)| (kv.0@, kv.1@)) == cookie_pairs(all.take(i as int)),
        decreases pieces.len() - i,
    {
        let ghost before = out@.map_values(|kv: (String, String)| (kv.0@, kv.1@));
        proof {
            assert(all.take(i + 1) =~= all.take(i as int) + seq![all[i as int]]);
            lemma_cookie_pairs_append(all.take(i as int), seq![all[i as int]]);
            assert(seq![all[i as int]].drop_first() =~= Seq::<Seq<char>>::empty());
            assert(all[i as int] == pieces@[i as int]@);
            assert(seq![all[i as int]][0] == all[i as int]);
            assert(cookie_pairs(Seq::<Seq<char>>::empty()) =~= Seq::<(Seq<char>, Seq<char>)>::empty());
        }
        match split_cookie_pair(pieces[i].as_slice()) {
            Some(kv) => {
                let k = string_from_chars(kv.0.as_slice());
                let v = string_from_chars(kv.1.as_slice());
                out.push((k, v));
                assert(cookie_pairs(seq![all[i as int]]) =~= seq![(kv.0@, kv.1@)]);
                assert(out@.map_values(|kv: (String, String)| (kv.0@, kv.1@)) =~= before.push((kv.0@, kv.1@)));
            },
            None => {
                assert(cookie_pairs(seq![all[i as int]]) =~= Seq::<(Seq<char>, Seq<char>)>::empty());
            },
        }
        i = i + 1;
    }
    assert(all.take(pieces@.len() as int) =~= all);
    out
}

/// The cookies of two runs of pieces are those of the first, then those of the second.
proof fn lemma_cookie_pairs_append(a: Seq<Seq<char>>, b: Seq<Seq<char>>)
    ensures
        cookie_pairs(a + b) == cookie_pairs(a) + cookie_pairs(b),
    decreases a.len(),
{
    if a.len() == 0 {
        assert(a + b =~= b);
    } else {
        assert((a + b).drop_first() =~= a.drop_first() + b);
        lemma_cookie_pairs_append(a.drop_first(), b);
        assert((a + b)[0] == a[0]);
    }
}

// ------------------------------------------------------------ checkpoint

/// How a site is served, from its stored status: `off` answers 404, `pass`
/// forwards without inspection, `on` blocks what detection flags, any other
/// status inspects and logs but forwards.
#[derive(Debug, Clone, Copy, PartialEq, Eq, Structural)]
pub enum SiteMode {
    Off,
    Pass,
    On,
    Monitor,
}

/// The mode of a stored site status.
pub open spec fn site_mode_spec(status: Seq<char>) -> SiteMode {
    if status == "off"@ {
        SiteMode::Off
    } else if status == "pass"@ {
        SiteMode::Pass
    } else if status == "on"@ {
        SiteMode::On
    } else {
        SiteMode::Monitor
    }
}

/// The mode of a stored site status.
pub fn site_mode(status: &str) -> (m: SiteMode)
    ensures
        m == site_mode_spec(status@),
{
    let s = chars_of(status);
    let off = chars_of("off");
    let pass = chars_of("pass");
    let on = chars_of("on");
    if vec_eq(&s, &off) {
        SiteMode::Off
    } else if vec_eq(&s, &pass) {
        SiteMode::Pass
    } else if vec_eq(&s, &on) {
        SiteMode::On
    } else {
        SiteMode::Monitor
    }
}

/// Where a request stands in the checkpoint.
#[derive(Debug, Clone, Copy, PartialEq, Eq, Structural)]
pub enum GateStage {
    /// Nothing known yet.
    Arrival,
    /// Waiting for the rate-limit answer.
    RateLimit,
    /// Rate-limited; waiting for the challenge cookie's verification.
    Challenge,
    /// The challenge was not passed; waiting for the ban state and strikes.
    BanLookup,
    /// Waiting for the reputation of the client's address.
    Reputation,
    /// Waiting for the upload check.
    Upload,
    /// Waiting for rule detection.
    Detection,
    /// An answer was given.
    Done,
}

/// A request's progress: the stage, the site mode and why it was rate-limited.
#[derive(Debug, Clone, Copy)]
pub struct ProxyGate {
    pub stage: GateStage,
    pub mode: SiteMode,
    pub reason: Option<BlockReason>,
}

/// What the caller learnt since the last step.
#[derive(Debug, Clone)]
pub enum GateEvent {
    /// The request arrived: whether its host is proxied, whether setup is
    /// done, whether its path is under `/init`, whether it names a static
    /// resource, the site mode and whether the client is whitelisted.
    Arrived { known_host: bool, initialized: bool, init_path: bool, static_resource: bool, mode: SiteMode, whitelisted: bool },
    /// The rate limiter answered.
    RateChecked(RateLimitResult),
    /// The challenge cookie was verified.
    ChallengeChecked(ChallengeStatus),
    /// The client's ban state, whether it sent a captcha cookie, and its
    /// strike count.
    BanChecked { banned: bool, temporary: bool, captcha_cookie: bool, strikes: u32 },
    /// Whether the address has a good reputation.
    ReputationChecked(bool),
    /// The upload check's verdict and reason.
    UploadChecked { safe: bool, reason: String },
    /// Whether rule detection found the request normal.
    Detected { normal: bool },
}

/// What the caller must do next.
#[derive(Debug, Clone, PartialEq, Eq)]
pub enum GateAction {
    /// Answer with the 404 page.
    NotFound,
    /// Redirect to `/init/`.
    RedirectToInit,
    /// Ask the rate limiter.
    CheckRateLimit,
    /// Verify the `bw_challenge` cookie.
    VerifyChallenge,
    /// Look up the ban state, the `bw_captcha` cookie and the strike count.
    LookUpBan,
    /// Ask for the address's reputation.
    QueryReputation,
    /// Run the upload check.
    CheckUpload,
    /// Run rule detection.
    Detect,
    /// Ban the client for the reason given and answer 403.
    BanAndForbid(String),
    /// Answer 403.
    Forbid,
    /// Answer with the captcha page.
    Captcha,
    /// Ban the client temporarily for the reason given and answer with the captcha page.
    TemporaryBanAndCaptcha(String),
    /// Add a strike and answer with a fresh challenge.
    Challenge,
    /// Log the request as a threat and answer 403.
    LogThreatAndForbid,
    /// Forward the request; log it as a threat first and log the upstream
    /// answer afterwards, as the flags say.
    Forward { log_threat: bool, log_result: bool },
    /// The event does not belong to this stage; nothing changes.
    Ignore,
}

/// The meaning of a [`GateAction`], with its texts as character sequences.
pub enum GateActionView {
    NotFound,
    RedirectToInit,
    CheckRateLimit,
    VerifyChallenge,
    LookUpBan,
    QueryReputation,
    CheckUpload,
    Detect,
    BanAndForbid(Seq<char>),
    Forbid,
    Captcha,
    TemporaryBanAndCaptcha(Seq<char>),
    Challenge,
    LogThreatAndForbid,
    Forward { log_threat: bool, log_result: bool },
    Ignore,
}

impl View for GateAction {
    type V = GateActionView;

    open spec fn view(&self) -> GateActionView {
        match self {
            GateAction::NotFound => GateActionView::NotFound,
            GateAction::RedirectToInit => GateActionView::RedirectToInit,
            GateAction::CheckRateLimit => GateActionView::CheckRateLimit,
            GateAction::VerifyChallenge => GateActionView::VerifyChallenge,
            GateAction::LookUpBan => GateActionView::LookUpBan,
            GateAction::QueryReputation => GateActionView::QueryReputation,
            GateAction::CheckUpload => GateActionView::CheckUpload,
            GateAction::Detect => GateActionView::Detect,
            GateAction::BanAndForbid(r) => GateActionView::BanAndForbid(r@),
            GateAction::Forbid => GateActionView::Forbid,
            GateAction::Captcha => GateActionView::Captcha,
            GateAction::TemporaryBanAndCaptcha(r) => GateActionView::TemporaryBanAndCaptcha(r@),
            GateAction::Challenge => GateActionView::Challenge,
            GateAction::LogThreatAndForbid => GateActionView::LogThreatAndForbid,
            GateAction::Forward { log_threat, log_result } => GateActionView::Forward { log_threat: *log_threat, log_result: *log_result },
            GateAction::Ignore => GateActionView::Ignore,
        }
    }
}

/// The ban reason for a challenge token that fails its signature check.
pub open spec fn forged_token_reason() -> Seq<char> {
    "forged_challenge_token"@
}

/// The ban reason for an address with a bad reputation.
pub open spec fn bad_reputation_reason() -> Seq<char> {
    "bad_ip_reputation"@
}

/// The reason recorded for a temporary ban after too many strikes.
pub open spec fn strike_reason_spec(r: Option<BlockReason>) -> Seq<char> {
    match r {
        Some(BlockReason::Banned) => "banned"@,
        Some(BlockReason::TemporaryBanned) => "temporary_banned"@,
        Some(BlockReason::RateLimit) => "rate_limit"@,
        None => "unknown"@,
    }
}

fn strike_reason(r: Option<BlockReason>) -> (s: String)
    ensures
        s@ == strike_reason_spec(r),
{
    match r {
        Some(BlockReason::Banned) => string_from_chars(chars_of("banned").as_slice()),
        Some(BlockReason::TemporaryBanned) => string_from_chars(chars_of("temporary_banned").as_slice()),
        Some(BlockReason::RateLimit) => string_from_chars(chars_of("rate_limit").as_slice()),
        None => string_from_chars(chars_of("unknown").as_slice()),
    }
}

/// Strikes a rate-limited client may collect before it is banned temporarily.
pub const MAX_STRIKES: u32 = 3;

/// The next stage and action for an event.
pub open spec fn gate_step_spec(g: ProxyGate, e: GateEvent) -> (ProxyGate, GateActionView) {
    let done = ProxyGate { stage: GateStage::Done, ..g };
    match (g.stage, e) {
        (GateStage::Arrival, GateEvent::Arrived { known_host, initialized, init_path, static_resource, mode, whitelisted }) => {
            let g2 = ProxyGate { mode: mode, ..done };
            if !known_host {
                (g2, GateActionView::NotFound)
            } else if !initialized && !init_path && !static_resource {
                (g2, GateActionView::RedirectToInit)
            } else if mode == SiteMode::Off {
                (g2, GateActionView::NotFound)
            } else if mode == SiteMode::Pass {
                (g2, GateActionView::Forward { log_threat: false, log_result: false })
            } else if whitelisted {
                (g2, GateActionView::Forward { log_threat: false, log_result: true })
            } else {
                (ProxyGate { stage: GateStage::RateLimit, mode: mode, reason: None }, GateActionView::CheckRateLimit)
            }
        },
        (GateStage::RateLimit, GateEvent::RateChecked(r)) => {
            if r.blocked {
                (ProxyGate { stage: GateStage::Challenge, reason: r.reason, ..g }, GateActionView::VerifyChallenge)
            } else {
                (ProxyGate { stage: GateStage::Reputation, ..g }, GateActionView::QueryReputation)
            }
        },
        (GateStage::Challenge, GateEvent::ChallengeChecked(s)) => {
            match s {
                ChallengeStatus::Valid => (ProxyGate { stage: GateStage::Reputation, ..g }, GateActionView::QueryReputation),
                ChallengeStatus::Invalid => (done, GateActionView::BanAndForbid(forged_token_reason())),
                _ => (ProxyGate { stage: GateStage::BanLookup, ..g }, GateActionView::LookUpBan),
            }
        },
        (GateStage::BanLookup, GateEvent::BanChecked { banned, temporary, captcha_cookie, strikes }) => {
            if banned {
                if temporary && !captcha_cookie {
                    (done, GateActionView::Captcha)
                } else {
                    (done, GateActionView::Forbid)
                }
            } else if strikes >= MAX_STRIKES {
                (done, GateActionView::TemporaryBanAndCaptcha(strike_reason_spec(g.reason)))
            } else {
                (done, GateActionView::Challenge)
            }
        },
        (GateStage::Reputation, GateEvent::ReputationChecked(good)) => {
            if good {
                (ProxyGate { stage: GateStage::Upload, ..g }, GateActionView::CheckUpload)
            } else {
                (done, GateActionView::BanAndForbid(bad_reputation_reason()))
            }
        },
        (GateStage::Upload, GateEvent::UploadChecked { safe, reason }) => {
            if safe {
                (ProxyGate { stage: GateStage::Detection, ..g }, GateActionView::Detect)
            } else {
                (done, GateActionView::BanAndForbid(reason@))
            }
        },
        (GateStage::Detection, GateEvent::Detected { normal }) => {
            if normal {
                (done, GateActionView::Forward { log_threat: false, log_result: true })
            } else if g.mode == SiteMode::On {
                (done, GateActionView::LogThreatAndForbid)
            } else {
                (done, GateActionView::Forward { log_threat: true, log_result: true })
            }
        },
        _ => (g, GateActionView::Ignore),
    }
}

impl ProxyGate {
    /// A checkpoint for a request that has just arrived.
    pub fn new() -> (g: Self)
        ensures
            g.stage == GateStage::Arrival,
            g.mode == SiteMode::On,
            g.reason is None,
    {
        ProxyGate { stage: GateStage::Arrival, mode: SiteMode::On, reason: None }
    }

    /// Takes in what the caller learnt and says what to do next.
    pub fn step(&mut self, e: GateEvent) -> (a: GateAction)
        ensures
            (*final(self), a@) == gate_step_spec(*old(self), e),
    {
        let g = *self;
        match (g.stage, e) {
            (GateStage::Arrival, GateEvent::Arrived { known_host, initialized, init_path, static_resource, mode, whitelisted }) => {
                if !known_host || (!initialized && !init_path && !static_resource) || mode == SiteMode::Off
                    || mode == SiteMode::Pass || whitelisted {
                    *self = ProxyGate { stage: GateStage::Done, mode: mode, reason: g.reason };
                    if !known_host {
                        GateAction::NotFound
                    } else if !initialized && !init_path && !static_resource {
                        GateAction::RedirectToInit
                    } else if mode == SiteMode::Off {
                        GateAction::NotFound
                    } else if mode == SiteMode::Pass {
                        GateAction::Forward { log_threat: false, log_result: false }
                    } else {
                        GateAction::Forward { log_threat: false, log_result: true }
                    }
                } else {
                    *self = ProxyGate { stage: GateStage::RateLimit, mode: mode, reason: None };
                    GateAction::CheckRateLimit
                }
            },
            (GateStage::RateLimit, GateEvent::RateChecked(r)) => {
                if r.blocked {
                    *self = ProxyGate { stage: GateStage::Challenge, mode: g.mode, reason: r.reason };
                    GateAction::VerifyChallenge
                } else {
                    *self = ProxyGate { stage: GateStage::Reputation, mode: g.mode, reason: g.reason };
                    GateAction::QueryReputation
                }
            },
            (GateStage::Challenge, GateEvent::ChallengeChecked(s)) => {
                match s {
                    ChallengeStatus::Valid => {
                        *self = ProxyGate { stage: GateStage::Reputation, mode: g.mode, reason: g.reason };
                        GateAction::QueryReputation
                    },
                    ChallengeStatus::Invalid => {
                        *self = ProxyGate { stage: GateStage::Done, mode: g.mode, reason: g.reason };
                        GateAction::BanAndForbid(string_from_chars(chars_of("forged_challenge_token").as_slice()))
                    },
                    _ => {
                        *self = ProxyGate { stage: GateStage::BanLookup, mode: g.mode, reason: g.reason };
                        GateAction::LookUpBan
                    },
                }
            },
            (GateStage::BanLookup, GateEvent::BanChecked { banned, temporary, captcha_cookie, strikes }) => {
                *self = ProxyGate { stage: GateStage::Done, mode: g.mode, reason: g.reason };
                if banned {
                    if temporary && !captcha_cookie {
                        GateAction::Captcha
                    } else {
                        GateAction::Forbid
                    }
                } else if strikes >= MAX_STRIKES {
                    GateAction::TemporaryBanAndCaptcha(strike_reason(g.reason))
                } else {
                    GateAction::Challenge
                }
            },
            (GateStage::Reputation, GateEvent::ReputationChecked(good)) => {
                if good {
                    *self = ProxyGate { stage: GateStage::Upload, mode: g.mode, reason: g.reason };
                    GateAction::CheckUpload
                } else {
                    *self = ProxyGate { stage: GateStage::Done, mode: g.mode, reason: g.reason };
                    GateAction::BanAndForbid(string_from_chars(chars_of("bad_ip_reputation").as_slice()))
                }
            },
            (GateStage::Upload, GateEvent::UploadChecked { safe, reason }) => {
                if safe {
                    *self = ProxyGate { stage: GateStage::Detection, mode: g.mode, reason: g.reason };
                    GateAction::Detect
                } else {
                    *self = ProxyGate { stage: GateStage::Done, mode: g.mode, reason: g.reason };
                    GateAction::BanAndForbid(reason)
                }
            },
            (GateStage::Detection, GateEvent::Detected { normal }) => {
                *self = ProxyGate { stage: GateStage::Done, mode: g.mode, reason: g.reason };
                if normal {
                    GateAction::Forward { log_threat: false, log_result: true }
                } else if g.mode == SiteMode::On {
                    GateAction::LogThreatAndForbid
                } else {
                    GateAction::Forward { log_threat: true, log_result: true }
                }
            },
            _ => GateAction::Ignore,
        }
    }
}


// ------------------------------------------------------------- uploads

/// The text of name/value pairs.
pub open spec fn pairs_view(h: Seq<(String, String)>) -> Seq<(Seq<char>, Seq<char>)> {
    h.map_values(|kv: (String, String)| (kv.0@, kv.1@))
}

/// The value of the last pair named `key`: a later pair overrides an
/// earlier one of the same name, as when pairs are collected into a map.
pub open spec fn header_value(h: Seq<(Seq<char>, Seq<char>)>, key: Seq<char>) -> Option<Seq<char>>
    decreases h.len(),
{
    if h.len() == 0 {
        None
    } else if h.last().0 == key {
        Some(h.last().1)
    } else {
        header_value(h.drop_last(), key)
    }
}

/// No name occurs twice.
pub open spec fn unique_names(h: Seq<(Seq<char>, Seq<char>)>) -> bool {
    forall|i: int, j: int| 0 <= i < j < h.len() ==> #[trigger] h[i].0 != #[trigger] h[j].0
}

proof fn lemma_header_value_absent(h: Seq<(Seq<char>, Seq<char>)>, k: Seq<char>)
    ensures
        header_value(h, k) is None <==> (forall|i: int| 0 <= i < h.len() ==> #[trigger] h[i].0 != k),
    decreases h.len(),
{
    if h.len() > 0 {
        let t = h.drop_last();
        lemma_header_value_absent(t, k);
        if header_value(h, k) is None {
            assert forall|i: int| 0 <= i < h.len() implies #[trigger] h[i].0 != k by {
                if i < h.len() - 1 {
                    assert(t[i] == h[i]);
                }
            }
        }
        if forall|i: int| 0 <= i < h.len() ==> #[trigger] h[i].0 != k {
            assert(h[h.len() - 1].0 != k);
            assert forall|i: int| 0 <= i < t.len() implies #[trigger] t[i].0 != k by {
                assert(t[i] == h[i]);
            }
        }
    }
}

proof fn lemma_header_value_at(h: Seq<(Seq<char>, Seq<char>)>, i: int)
    requires
        unique_names(h),
        0 <= i < h.len(),
    ensures
        header_value(h, h[i].0) == Some(h[i].1),
    decreases h.len(),
{
    if i < h.len() - 1 {
        let t = h.drop_last();
        assert(h[i].0 != h[h.len() - 1].0);
        assert(unique_names(t)) by {
            assert forall|a: int, b: int| 0 <= a < b < t.len() implies #[trigger] t[a].0 != #[trigger] t[b].0 by {
                assert(t[a] == h[a] && t[b] == h[b]);
                assert(h[a].0 != h[b].0);
            }
        }
        assert(t[i] == h[i]);
        lemma_header_value_at(t, i);
    }
}

proof fn lemma_header_value_replace(h: Seq<(Seq<char>, Seq<char>)>, j: int, v: Seq<char>, k: Seq<char>)
    requires
        unique_names(h),
        0 <= j < h.len(),
    ensures
        unique_names(h.update(j, (h[j].0, v))),
        header_value(h.update(j, (h[j].0, v)), k) == if k == h[j].0 { Some(v) } else { header_value(h, k) },
{
    let u = h.update(j, (h[j].0, v));
    assert forall|a: int, b: int| 0 <= a < b < u.len() implies #[trigger] u[a].0 != #[trigger] u[b].0 by {
        assert(u[a].0 == h[a].0 && u[b].0 == h[b].0);
        assert(h[a].0 != h[b].0);
    }
    if k == h[j].0 {
        lemma_header_value_at(u, j);
    } else if exists|i: int| 0 <= i < h.len() && h[i].0 == k {
        let i = choose|i: int| 0 <= i < h.len() && h[i].0 == k;
        assert(u[i] == h[i]);
        lemma_header_value_at(h, i);
        lemma_header_value_at(u, i);
    } else {
        lemma_header_value_absent(h, k);
        lemma_header_value_absent(u, k);
        assert forall|i: int| 0 <= i < u.len() implies #[trigger] u[i].0 != k by {
            if i != j {
                assert(u[i] == h[i]);
            }
        }
    }
}

/// The value of the last pair named `key`.
pub fn find_header(h: &Vec<(String, String)>, key: &str) -> (r: Option<String>)
    ensures
        match r {
            Some(v) => header_value(pairs_view(h@), key@) == Some(v@),
            None => header_value(pairs_view(h@), key@) is None,
        },
{
    let wanted = chars_of(key);
    let ghost all = pairs_view(h@);
    let mut i: usize = h.len();
    assert(all.take(i as int) =~= all);
    while i > 0
        invariant
            i <= h@.len(),
            all == pairs_view(h@),
            wanted@ == key@,
            header_value(all, key@) == header_value(all.take(i as int), key@),
        decreases i,
    {
        let ghost pre = all.take(i as int);
        assert(pre.drop_last() =~= all.take(i - 1));
        assert(pre.last() == (h@[i - 1].0@, h@[i - 1].1@));
        let k = chars_of(h[i - 1].0.as_str());
        if vec_eq(&k, &wanted) {
            return Some(h[i - 1].1.clone());
        }
        i = i - 1;
    }
    None
}

/// Where a pair named `name` stands, if any.
fn name_position(r: &Vec<(String, String)>, name: &str) -> (p: Option<usize>)
    ensures
        match p {
            Some(j) => j < r@.len() && r@[j as int].0@ == name@,
            None => forall|m: int| 0 <= m < r@.len() ==> #[trigger] pairs_view(r@)[m].0 != name@,
        },
{
    let wanted = chars_of(name);
    let mut j: usize = 0;
    while j < r.len()
        invariant
            j <= r@.len(),
            wanted@ == name@,
            forall|m: int| 0 <= m < j ==> #[trigger] pairs_view(r@)[m].0 != name@,
        decreases r.len() - j,
    {
        let k = chars_of(r[j].0.as_str());
        if vec_eq(&k, &wanted) {
            return Some(j);
        }
        j = j + 1;
    }
    None
}

/// The pairs with each name once, holding the value its last pair gives,
/// as collecting them into a map does.
pub fn collapse_pairs(h: &Vec<(String, String)>) -> (r: Vec<(String, String)>)
    ensures
        unique_names(pairs_view(r@)),
        forall|k: Seq<char>| #[trigger] header_value(pairs_view(r@), k) == header_value(pairs_view(h@), k),
{
    let ghost hv = pairs_view(h@);
    let mut r: Vec<(String, String)> = Vec::new();
    let mut i: usize = 0;
    while i < h.len()
        invariant
            i <= h@.len(),
            hv == pairs_view(h@),
            unique_names(pairs_view(r@)),
            forall|k: Seq<char>| #[trigger] header_value(pairs_view(r@), k) == header_value(hv.take(i as int), k),
        decreases h.len() - i,
    {
        let ghost before = pairs_view(r@);
        let ghost pre = hv.take(i + 1);
        assert(pre.drop_last() =~= hv.take(i as int));
        assert(pre.last() == hv[i as int]);
        let name = h[i].0.clone();
        let value = h[i].1.clone();
        assert(name@ == hv[i as int].0 && value@ == hv[i as int].1);
        match name_position(&r, name.as_str()) {
            Some(j) => {
                r.set(j, (name, value));
                assert(pairs_view(r@) =~= before.update(j as int, (before[j as int].0, hv[i as int].1)));
                assert forall|k: Seq<char>| #[trigger] header_value(pairs_view(r@), k) == header_value(pre, k) by {
                    lemma_header_value_replace(before, j as int, hv[i as int].1, k);
                    assert(header_value(before, k) == header_value(hv.take(i as int), k));
                }
                proof {
                    lemma_header_value_replace(before, j as int, hv[i as int].1, hv[i as int].0);
                }
            },
            None => {
                r.push((name, value));
                assert(pairs_view(r@) =~= before.push((hv[i as int].0, hv[i as int].1)));
                assert(pairs_view(r@).drop_last() =~= before);
                assert forall|a: int, b: int| 0 <= a < b < pairs_view(r@).len() implies
                    #[trigger] pairs_view(r@)[a].0 != #[trigger] pairs_view(r@)[b].0 by {
                    if b == pairs_view(r@).len() - 1 {
                        assert(before[a].0 != hv[i as int].0);
                    } else {
                        assert(before[a].0 != before[b].0);
                    }
                }
                assert forall|k: Seq<char>| #[trigger] header_value(pairs_view(r@), k) == header_value(pre, k) by {
                    assert(header_value(before, k) == header_value(hv.take(i as int), k));
                }
            },
        }
        i = i + 1;
    }
    assert(hv.take(h@.len() as int) =~= hv);
    r
}

/// The capture pattern for file names in a multipart body.
pub open spec fn filename_pattern() -> Seq<char> {
    "filename=\"([^\"]+)\""@
}

/// The file names a multipart body declares, in order.
pub open spec fn multipart_filenames(body: Seq<char>) -> Seq<Seq<char>> {
    match crate::regex_ops::regex_group1_texts(filename_pattern(), body) {
        Some(groups) => somes(groups),
        None => Seq::empty(),
    }
}

/// The present entries, in order.
pub open spec fn somes(s: Seq<Option<Seq<char>>>) -> Seq<Seq<char>>
    decreases s.len(),
{
    if s.len() == 0 {
        Seq::empty()
    } else {
        match s[0] {
            Some(x) => seq![x] + somes(s.drop_first()),
            None => somes(s.drop_first()),
        }
    }
}

/// The file names declared by `filename="..."` in a multipart body.
pub fn extract_filenames_from_multipart(body: &str) -> (names: Vec<String>)
    ensures
        names@.map_values(|n: String| n@) == multipart_filenames(body@),
{
    let mut names: Vec<String> = Vec::new();
    match crate::regex_ops::regex_group1("filename=\"([^\"]+)\"", body) {
        Some(groups) => {
            proof {
                reveal_strlit("filename=\"([^\"]+)\"");
            }
            let ghost g = groups@.map_values(|o: Option<String>| match o {
                Some(s) => Some(s@),
                None => None,
            });
            let mut i: usize = 0;
            assert(g.take(0) =~= Seq::<Option<Seq<char>>>::empty());
            while i < groups.len()
                invariant
                    i <= groups@.len(),
                    g == groups@.map_values(|o: Option<String>| match o {
                        Some(s) => Some(s@),
                        None => None,
                    }),
                    names@.map_values(|n: String| n@) == somes(g.take(i as int)),
                decreases groups.len() - i,
            {
                proof {
                    assert(g.take(i + 1) =~= g.take(i as int) + seq![g[i as int]]);
                    lemma_somes_append(g.take(i as int), seq![g[i as int]]);
                    assert(seq![g[i as int]].drop_first() =~= Seq::<Option<Seq<char>>>::empty());
                    assert(seq![g[i as int]][0] == g[i as int]);
                    assert(somes(Seq::<Option<Seq<char>>>::empty()) =~= Seq::<Seq<char>>::empty());
                }
                let ghost before = names@.map_values(|n: String| n@);
                match &groups[i] {
                    Some(n) => {
                        names.push(n.clone());
                        assert(somes(seq![g[i as int]]) =~= seq![n@]);
                        assert(names@.map_values(|n: String| n@) =~= before.push(n@));
                    },
                    None => {
                        assert(somes(seq![g[i as int]]) =~= Seq::<Seq<char>>::empty());
                    },
                }
                i = i + 1;
            }
            assert(g.take(groups@.len() as int) =~= g);
        },
        None => {
            proof {
                reveal_strlit("filename=\"([^\"]+)\"");
            }
            assert(names@.map_values(|n: String| n@) =~= Seq::<Seq<char>>::empty());
        },
    }
    names
}

proof fn lemma_somes_append(a: Seq<Option<Seq<char>>>, b: Seq<Option<Seq<char>>>)
    ensures
        somes(a + b) == somes(a) + somes(b),
    decreases a.len(),
{
    if a.len() == 0 {
        assert(a + b =~= b);
    } else {
        assert((a + b).drop_first() =~= a.drop_first() + b);
        lemma_somes_append(a.drop_first(), b);
        assert((a + b)[0] == a[0]);
    }
}

/// The lower-cased extension of a file name, empty when it has none.
pub open spec fn lowered_extension(name: Seq<char>) -> Seq<char> {
    match crate::paths::path_extension(name) {
        Some(e) => crate::text::lowercase(e),
        None => Seq::empty(),
    }
}

/// The first extension among the names that is neither empty nor allowed.
pub open spec fn first_forbidden(names: Seq<Seq<char>>, allowed: Seq<Seq<char>>) -> Option<Seq<char>>
    decreases names.len(),
{
    if names.len() == 0 {
        None
    } else {
        let ext = lowered_extension(names[0]);
        if ext.len() > 0 && !allowed.contains(ext) {
            Some(ext)
        } else {
            first_forbidden(names.drop_first(), allowed)
        }
    }
}

/// The verdict on an uploaded body: too large, or (for a multipart body) a
/// file whose extension is not allowed, or safe with an empty reason.
pub open spec fn file_security_spec(body: Seq<u8>, content_type: Seq<char>, max_size: usize,
    allowed: Seq<Seq<char>>) -> (bool, Seq<char>)
{
    if body.len() > max_size {
        (false, "upload_size_exceeded"@)
    } else if !contains_seq(content_type, "multipart/form-data"@) {
        (true, Seq::empty())
    } else {
        match first_forbidden(multipart_filenames(crate::text::utf8_lossy(body)), allowed) {
            Some(ext) => (false, "forbidden_extension:"@ + ext),
            None => (true, Seq::empty()),
        }
    }
}

/// Checks an uploaded body against the size limit and, for multipart
/// bodies, the allowed file extensions; returns the verdict and, when
/// refused, the reason (`upload_size_exceeded` or
/// `forbidden_extension:<ext>`).
pub fn check_file_security(
    body: &[u8],
    headers: &Vec<(String, String)>,
    upload_max_size: usize,
    upload_allowed_extensions: &Vec<String>,
) -> (r: (bool, String))
    ensures
        (r.0, r.1@) == file_security_spec(
            body@,
            match header_value(pairs_view(headers@), "content-type"@) {
                Some(v) => v,
                None => Seq::empty(),
            },
            upload_max_size,
            upload_allowed_extensions@.map_values(|t: String| t@),
        ),
{
    proof {
        reveal_strlit("content-type");
        reveal_strlit("multipart/form-data");
        reveal_strlit("upload_size_exceeded");
        reveal_strlit("forbidden_extension:");
    }
    let content_type = match find_header(headers, "content-type") {
        Some(v) => chars_of(v.as_str()),
        None => Vec::new(),
    };
    if body.len() > upload_max_size {
        return (false, string_from_chars(chars_of("upload_size_exceeded").as_slice()));
    }
    if !contains(content_type.as_slice(), chars_of("multipart/form-data").as_slice()) {
        return (true, String::new());
    }
    let text = crate::text::from_utf8_lossy(body);
    let names = extract_filenames_from_multipart(text.as_str());
    let ghost nv = names@.map_values(|n: String| n@);
    let ghost allowed = upload_allowed_extensions@.map_values(|t: String| t@);
    let mut i: usize = 0;
    assert(nv.skip(0) =~= nv);
    while i < names.len()
        invariant
            i <= names@.len(),
            nv == names@.map_values(|n: String| n@),
            allowed == upload_allowed_extensions@.map_values(|t: String| t@),
            first_forbidden(nv, allowed) == first_forbidden(nv.skip(i as int), allowed),
            nv == multipart_filenames(crate::text::utf8_lossy(body@)),
            body@.len() <= upload_max_size,
            contains_seq(content_type@, "multipart/form-data"@),
            content_type@ == match header_value(pairs_view(headers@), "content-type"@) {
                Some(v) => v,
                None => Seq::empty(),
            },
        decreases names.len() - i,
    {
        assert(nv.skip(i as int).drop_first() =~= nv.skip(i + 1));
        assert(nv.skip(i as int)[0] == names@[i as int]@);
        let ext: Vec<char> = match crate::paths::file_extension(names[i].as_str()) {
            Some(e) => chars_of(crate::text::to_lowercase(e.as_str()).as_str()),
            None => Vec::new(),
        };
        assert(ext@ == lowered_extension(names@[i as int]@));
        let ext_text = string_from_chars(ext.as_slice());
        if ext.len() > 0 && !contains_text(upload_allowed_extensions, ext_text.as_str()) {
            let mut reason = chars_of("forbidden_extension:");
            append_chars(&mut reason, ext.as_slice());
            assert(!allowed.contains(ext@));
            assert(first_forbidden(nv.skip(i as int), allowed) == Some(ext@));
            return (false, string_from_chars(reason.as_slice()));
        }
        i = i + 1;
    }
    (true, String::new())
}

// -------------------------------------------------------------- beacon

/// The script tag that reports page views of a forwarded request.
pub open spec fn beacon_tag(request_id: Seq<char>) -> Seq<char> {
    "<script src=\"/biubo-cgi/scripts/biubo/beacon.js\" data-request-id=\""@ + request_id
        + "\"></script>"@
}

/// Inserts the beacon script before the last `</body>` of an HTML page.
/// Content without `<body`, or without a closing `</body>`, comes back
/// unchanged; otherwise the page (read as UTF-8, invalid sequences
/// replaced) is returned with the tag inserted, as UTF-8.
pub fn inject_beacon(content: &[u8], request_id: &str) -> (out: Vec<u8>)
    ensures
        ({
            let html = crate::text::utf8_lossy(content@);
            if !contains_seq(html, "<body"@) || !contains_seq(html, "</body>"@) {
                out@ == content@
            } else {
                exists|i: int| #[trigger] occurs_at(html, "</body>"@, i)
                    && (forall|j: int| i < j ==> !occurs_at(html, "</body>"@, j))
                    && out@ == vstd::utf8::encode_utf8(html.take(i) + beacon_tag(request_id@) + html.skip(i))
            }
        }),
{
    proof {
        reveal_strlit("<body");
        reveal_strlit("</body>");
        reveal_strlit("<script src=\"/biubo-cgi/scripts/biubo/beacon.js\" data-request-id=\"");
        reveal_strlit("\"></script>");
    }
    let html_s = crate::text::from_utf8_lossy(content);
    let html = chars_of(html_s.as_str());
    if !contains(html.as_slice(), chars_of("<body").as_slice()) {
        return slice_to_vec(content);
    }
    match rfind(html.as_slice(), chars_of("</body>").as_slice()) {
        Some(pos) => {
            let mut result = slice_chars(html.as_slice(), 0, pos);
            append_chars(&mut result, chars_of("<script src=\"/biubo-cgi/scripts/biubo/beacon.js\" data-request-id=\"").as_slice());
            append_chars(&mut result, chars_of(request_id).as_slice());
            append_chars(&mut result, chars_of("\"></script>").as_slice());
            let tail = slice_chars(html.as_slice(), pos, html.len());
            append_chars(&mut result, tail.as_slice());
            assert(result@ =~= html@.take(pos as int) + beacon_tag(request_id@) + html@.skip(pos as int));
            let page = string_from_chars(result.as_slice());
            page.as_str().as_bytes_vec()
        },
        None => slice_to_vec(content),
    }
}

// ---------------------------------------------------------------- laws

/// A request that rule detection flags is never forwarded on a site in
/// `on` mode: it is logged and refused.
pub proof fn law_flagged_request_blocked_when_on(g: ProxyGate)
    requires
        g.stage == GateStage::Detection,
        g.mode == SiteMode::On,
    ensures
        gate_step_spec(g, GateEvent::Detected { normal: false }).1 == GateActionView::LogThreatAndForbid,
{
}

/// Apart from the arrival step (site off, pass mode, whitelisted client),
/// the checkpoint forwards a request only after rule detection, and on a site in
/// `on` mode only when detection found it normal.
pub proof fn law_forward_only_after_detection(g: ProxyGate, e: GateEvent)
    requires
        g.stage != GateStage::Arrival,
        gate_step_spec(g, e).1 is Forward,
    ensures
        g.stage == GateStage::Detection,
        g.mode == SiteMode::On ==> e == (GateEvent::Detected { normal: true }),
{
}

/// A challenge cookie whose signature does not check bans the client, and a
/// finished checkpoint ignores every further event.
pub proof fn law_forged_token_bans_and_done_is_final(g: ProxyGate, e: GateEvent)
    ensures
        g.stage == GateStage::Challenge ==> gate_step_spec(g, GateEvent::ChallengeChecked(ChallengeStatus::Invalid)).1
            == GateActionView::BanAndForbid(forged_token_reason()),
        g.stage == GateStage::Done ==> gate_step_spec(g, e) == (g, GateActionView::Ignore),
{
}

} // verus!
