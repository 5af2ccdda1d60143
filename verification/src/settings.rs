//! The firewall's settings: their defaults, the overrides read from
//! `config.json` and from environment variables, and their validation.
//!
//! Reading the file and the environment is the caller's part; here the
//! values read are applied.
use vstd::prelude::*;
use crate::text::{
    owned_text, chars_of, string_from_chars, append_chars, vec_eq, trim, trim_spec, split_char, split_spec,
    views, matches_at, occurs_at, lowercase, to_lowercase, parse_i64, parse_i64_spec, parse_u16,
    parse_u16_spec, parse_usize, parse_usize_spec,
};
use crate::paths::{joined_path, path_join};
use crate::json::{json_string_list, parse_string_list};
use crate::models::{ClusterRole, ReputationProviderConfig, WafApiKey, texts};
use crate::storage::StorageDriverType;
use crate::encoding::{sha256, sha256_digest, hex_encode, hex_encode_spec};
use crate::clock::{random_uuid_bytes, unix_time_nanos};

verus! {

/// Which request headers carry the client address, in order of trust.
#[derive(Debug, Clone)]
pub struct IpHeaderConfig {
    pub state: bool,
    pub order: Vec<String>,
    pub trusted_proxies: Vec<String>,
}

/// Settings of the rule engine.
#[derive(Debug, Clone)]
pub struct RuleEngineConfig {
    pub paranoia_level: u8,
    pub rule_paths: Vec<String>,
    pub crs_auto_update: bool,
}

/// All settings. Paths are held as text; the proxy map is a list of
/// host/target pairs.
#[derive(Debug, Clone)]
pub struct Settings {
    pub waf_port: u16,
    pub dashboard_password: String,
    pub cors_origins: Vec<String>,
    pub host_forward: bool,
    pub proxy_map: Vec<(String, String)>,
    pub api_key: String,
    pub llm_model: String,
    pub llm_base_url: String,
    pub session_timeout: i64,
    pub cache_ttl: i64,
    pub session_gc_interval: i64,
    pub cache_gc_interval: i64,
    pub get_ip_from_headers: IpHeaderConfig,
    pub rate_limit_per_sec: i64,
    pub rate_ban_threshold: i64,
    pub rate_ban_duration_min: i64,
    pub rate_gc_interval: i64,
    pub static_extensions: Vec<String>,
    pub project_root: String,
    pub db_root: String,
    pub template_root: String,
    pub page_root: String,
    pub challenge_secret: String,
    pub challenge_expire: i64,
    pub upload_max_size: usize,
    pub upload_allowed_extensions: Vec<String>,
    pub dashboard_path: String,
    pub log_auto_delete: bool,
    pub log_retention_days: i64,
    pub log_retain: String,
    pub storage_driver: StorageDriverType,
    pub redis_url: String,
    pub postgres_url: String,
    pub ssl_enabled: bool,
    pub ssl_domains: Vec<String>,
    pub ssl_acme_email: String,
    pub ssl_cert_dir: String,
    pub ssl_port: u16,
    pub rule_engine: RuleEngineConfig,
    pub ip_reputation_providers: Vec<ReputationProviderConfig>,
    pub behavior_profiling_enabled: bool,
    pub behavior_window_seconds: u64,
    pub llm_quick_model: String,
    pub llm_quick_base_url: String,
    pub llm_quick_api_key: String,
    pub llm_deep_model: String,
    pub llm_deep_base_url: String,
    pub llm_deep_api_key: String,
    pub cluster_mode: bool,
    pub cluster_role: ClusterRole,
    pub cluster_redis_url: Option<String>,
    pub waf_api_enabled: bool,
    pub waf_api_keys: Vec<WafApiKey>,
    pub auto_patch_enabled: bool,
}


/// The extensions of static resources served without inspection.
pub open spec fn default_static_extensions() -> Seq<Seq<char>> {
    seq![".js"@, ".css"@, ".png"@, ".jpg"@, ".jpeg"@, ".ico"@, ".woff"@, ".woff2"@, ".svg"@, ".gif"@, ".webp"@]
}

/// The extensions that uploads may carry by default.
pub open spec fn default_upload_extensions() -> Seq<Seq<char>> {
    seq![".jpg"@, ".jpeg"@, ".png"@, ".gif"@, ".webp"@, ".svg"@, ".ico"@, ".bmp"@, ".tiff"@, ".pdf"@,
        ".doc"@, ".docx"@, ".xls"@, ".xlsx"@, ".ppt"@, ".pptx"@, ".txt"@, ".md"@, ".csv"@, ".zip"@,
        ".tar"@, ".gz"@, ".7z"@, ".rar"@, ".mp3"@, ".mp4"@, ".wav"@, ".avi"@, ".mov"@, ".webm"@]
}

fn push_owned(v: &mut Vec<String>, s: &str)
    ensures
        texts(final(v)@) == texts(old(v)@).push(s@),
{
    let ghost before = texts(v@);
    v.push(owned_text(s));
    assert(texts(v@) =~= before.push(s@));
}

fn static_extensions() -> (v: Vec<String>)
    ensures
        texts(v@) == default_static_extensions(),
{
    let mut v: Vec<String> = Vec::new();
    assert(texts(v@) =~= Seq::<Seq<char>>::empty());
    push_owned(&mut v, ".js");
    push_owned(&mut v, ".css");
    push_owned(&mut v, ".png");
    push_owned(&mut v, ".jpg");
    push_owned(&mut v, ".jpeg");
    push_owned(&mut v, ".ico");
    push_owned(&mut v, ".woff");
    push_owned(&mut v, ".woff2");
    push_owned(&mut v, ".svg");
    push_owned(&mut v, ".gif");
    push_owned(&mut v, ".webp");
    assert(texts(v@) =~= default_static_extensions());
    v
}

fn upload_extensions() -> (v: Vec<String>)
    ensures
        texts(v@) == default_upload_extensions(),
{
    let mut v: Vec<String> = Vec::new();
    assert(texts(v@) =~= Seq::<Seq<char>>::empty());
    push_owned(&mut v, ".jpg");
    push_owned(&mut v, ".jpeg");
    push_owned(&mut v, ".png");
    push_owned(&mut v, ".gif");
    push_owned(&mut v, ".webp");
    push_owned(&mut v, ".svg");
    push_owned(&mut v, ".ico");
    push_owned(&mut v, ".bmp");
    push_owned(&mut v, ".tiff");
    push_owned(&mut v, ".pdf");
    push_owned(&mut v, ".doc");
    push_owned(&mut v, ".docx");
    push_owned(&mut v, ".xls");
    push_owned(&mut v, ".xlsx");
    push_owned(&mut v, ".ppt");
    push_owned(&mut v, ".pptx");
    push_owned(&mut v, ".txt");
    push_owned(&mut v, ".md");
    push_owned(&mut v, ".csv");
    push_owned(&mut v, ".zip");
    push_owned(&mut v, ".tar");
    push_owned(&mut v, ".gz");
    push_owned(&mut v, ".7z");
    push_owned(&mut v, ".rar");
    push_owned(&mut v, ".mp3");
    push_owned(&mut v, ".mp4");
    push_owned(&mut v, ".wav");
    push_owned(&mut v, ".avi");
    push_owned(&mut v, ".mov");
    push_owned(&mut v, ".webm");
    assert(texts(v@) =~= default_upload_extensions());
    v
}

/// A fresh challenge secret: the SHA-256 of two random UUIDs, in lowercase hex.
pub fn generate_challenge_secret() -> (s: String)
    ensures
        s@.len() == 64,
        exists|b: Seq<u8>| b.len() == 32 && s@ == #[trigger] hex_encode_spec(sha256(b)),
{
    let mut data = random_uuid_bytes();
    let second = random_uuid_bytes();
    let mut i: usize = 0;
    let ghost first = data@;
    while i < second.len()
        invariant
            i <= second@.len(),
            second@.len() == 16,
            first.len() == 16,
            data@ == first + second@.take(i as int),
        decreases second.len() - i,
    {
        data.push(second[i]);
        assert(data@ =~= first + second@.take(i + 1));
        i = i + 1;
    }
    let digest = sha256_digest(data.as_slice());
    let s = hex_encode(digest.as_slice());
    proof {
        crate::encoding::lemma_hex_encode_shape(digest@);
    }
    s
}

/// The bytes of ASCII text.
pub open spec fn ascii_bytes(s: Seq<char>) -> Seq<u8> {
    s.map_values(|c: char| c as u8)
}

/// The password made from UUID bytes and a Unix time in seconds: the first
/// sixteen hex characters of the SHA-256 of the bytes followed by the time's
/// decimal digits.
pub open spec fn password_text(uuid: Seq<u8>, secs: u64) -> Seq<char> {
    hex_encode_spec(sha256(uuid + ascii_bytes(crate::text::decimal(secs as nat)))).take(16)
}

/// The password made from `uuid` and `secs` (see [`password_text`]).
pub fn password_from(uuid: &[u8], secs: u64) -> (s: String)
    ensures
        s@ == password_text(uuid@, secs),
        s@.len() == 16,
{
    let mut data: Vec<u8> = Vec::new();
    let mut j: usize = 0;
    while j < uuid.len()
        invariant
            j <= uuid@.len(),
            data@ == uuid@.take(j as int),
        decreases uuid.len() - j,
    {
        data.push(uuid[j]);
        assert(uuid@.take(j + 1) =~= uuid@.take(j as int).push(uuid@[j as int]));
        j = j + 1;
    }
    assert(uuid@.take(uuid@.len() as int) =~= uuid@);
    let mut digits: Vec<char> = Vec::new();
    crate::text::push_decimal(&mut digits, secs);
    let ghost d = digits@;
    assert(d =~= crate::text::decimal(secs as nat));
    let mut i: usize = 0;
    while i < digits.len()
        invariant
            i <= digits@.len(),
            d == digits@,
            data@ == uuid@ + ascii_bytes(d.take(i as int)),
        decreases digits.len() - i,
    {
        data.push(digits[i] as u8);
        assert(ascii_bytes(d.take(i + 1)) =~= ascii_bytes(d.take(i as int)).push(d[i as int] as u8));
        assert(uuid@ + ascii_bytes(d.take(i + 1)) =~= (uuid@ + ascii_bytes(d.take(i as int))).push(d[i as int] as u8));
        i = i + 1;
    }
    assert(d.take(d.len() as int) =~= d);
    let digest = sha256_digest(data.as_slice());
    let hex = chars_of(hex_encode(digest.as_slice()).as_str());
    proof {
        crate::encoding::lemma_hex_encode_shape(digest@);
    }
    let first = crate::text::slice_chars(hex.as_slice(), 0, 16);
    assert(first@ =~= hex_encode_spec(digest@).take(16));
    string_from_chars(first.as_slice())
}

/// A fresh dashboard password made from a random UUID and the current Unix
/// time in seconds.
pub fn generate_random_password() -> (s: String)
    ensures
        s@.len() == 16,
        exists|uuid: Seq<u8>, secs: u64| uuid.len() == 16 && s@ == #[trigger] password_text(uuid, secs),
{
    let uuid = random_uuid_bytes();
    let now = unix_time_nanos() / crate::clock::NANOS_PER_SEC;
    password_from(uuid.as_slice(), now)
}

/// The value a numeric variable sets, or the old value when it is absent or
/// does not parse.
pub open spec fn env_i64(v: Option<String>, old: i64) -> i64 {
    match v {
        Some(t) => match parse_i64_spec(t@) {
            Some(x) => x,
            None => old,
        },
        None => old,
    }
}

/// Whether a flag variable reads `true` (in any case), or the old value
/// when it is absent.
pub open spec fn env_flag(v: Option<String>, old: bool) -> bool {
    match v {
        Some(t) => lowercase(t@) == "true"@,
        None => old,
    }
}

/// The value a text variable sets, or the old value when it is absent.
pub open spec fn env_text(v: Option<String>, old: String) -> String {
    match v {
        Some(t) => t,
        None => old,
    }
}

/// The pieces, trimmed, without the empty ones.
pub open spec fn trimmed_nonempty(p: Seq<Seq<char>>) -> Seq<Seq<char>>
    decreases p.len(),
{
    if p.len() == 0 {
        Seq::empty()
    } else {
        let r = trimmed_nonempty(p.drop_last());
        let t = trim_spec(p.last());
        if t.len() > 0 {
            r.push(t)
        } else {
            r
        }
    }
}

/// The non-empty trimmed pieces of a comma-separated list.
pub open spec fn comma_list(s: Seq<char>) -> Seq<Seq<char>> {
    trimmed_nonempty(split_spec(s, ','))
}

/// Reads a comma-separated list.
pub fn parse_comma_list(s: &str) -> (r: Vec<String>)
    ensures
        texts(r@) == comma_list(s@),
{
    let text = chars_of(s);
    let pieces = split_char(text.as_slice(), ',');
    let ghost all = views(pieces@);
    let mut out: Vec<String> = Vec::new();
    let mut i: usize = 0;
    assert(all.take(0) =~= Seq::<Seq<char>>::empty());
    while i < pieces.len()
        invariant
            i <= pieces@.len(),
            all == views(pieces@),
            all == split_spec(s@, ','),
            texts(out@) == trimmed_nonempty(all.take(i as int)),
        decreases pieces.len() - i,
    {
        assert(all.take(i + 1).drop_last() =~= all.take(i as int));
        assert(all.take(i + 1).last() == pieces@[i as int]@);
        let t = trim(pieces[i].as_slice());
        if t.len() > 0 {
            let ghost before = texts(out@);
            out.push(string_from_chars(t.as_slice()));
            assert(texts(out@) =~= before.push(t@));
        }
        i = i + 1;
    }
    assert(all.take(pieces@.len() as int) =~= all);
    out
}

fn set_i64(field: &mut i64, v: &Option<String>)
    ensures
        *final(field) == env_i64(*v, *old(field)),
{
    if let Some(t) = v {
        if let Some(x) = parse_i64(chars_of(t.as_str()).as_slice()) {
            *field = x;
        }
    }
}

fn set_u16(field: &mut u16, v: &Option<String>)
    ensures
        *final(field) == match *v {
            Some(t) => match parse_u16_spec(t@) {
                Some(x) => x,
                None => *old(field),
            },
            None => *old(field),
        },
{
    if let Some(t) = v {
        if let Some(x) = parse_u16(chars_of(t.as_str()).as_slice()) {
            *field = x;
        }
    }
}

fn set_usize(field: &mut usize, v: &Option<String>)
    ensures
        *final(field) == match *v {
            Some(t) => match parse_usize_spec(t@) {
                Some(x) => x,
                None => *old(field),
            },
            None => *old(field),
        },
{
    if let Some(t) = v {
        if let Some(x) = parse_usize(chars_of(t.as_str()).as_slice()) {
            *field = x;
        }
    }
}

fn is_true_text(t: &str) -> (b: bool)
    ensures
        b == (lowercase(t@) == "true"@),
{
    let l = chars_of(to_lowercase(t).as_str());
    let w = chars_of("true");
    vec_eq(&l, &w)
}

fn set_flag(field: &mut bool, v: &Option<String>)
    ensures
        *final(field) == env_flag(*v, *old(field)),
{
    if let Some(t) = v {
        *field = is_true_text(t.as_str());
    }
}

fn set_json_list(field: &mut Vec<String>, v: &Option<String>)
    ensures
        texts(final(field)@) == match *v {
            Some(t) => match json_string_list(t@) {
                Some(l) => l,
                None => texts(old(field)@),
            },
            None => texts(old(field)@),
        },
{
    if let Some(t) = v {
        if let Some(l) = parse_string_list(t.as_str()) {
            *field = l;
        }
    }
}

/// The environment variables the settings read; `None` where unset.
#[derive(Debug, Clone)]
pub struct EnvVars {
    pub waf_port: Option<String>,
    pub waf_dashboard_password: Option<String>,
    pub waf_cors_origins: Option<String>,
    pub waf_api_key: Option<String>,
    pub waf_llm_model: Option<String>,
    pub waf_llm_base_url: Option<String>,
    pub waf_session_timeout: Option<String>,
    pub waf_cache_ttl: Option<String>,
    pub waf_session_gc_interval: Option<String>,
    pub waf_cache_gc_interval: Option<String>,
    pub waf_trust_headers: Option<String>,
    pub waf_ip_header_order: Option<String>,
    pub waf_rate_limit: Option<String>,
    pub waf_ban_threshold: Option<String>,
    pub waf_ban_duration: Option<String>,
    pub waf_rate_gc_interval: Option<String>,
    pub waf_challenge_secret: Option<String>,
    pub waf_challenge_expire: Option<String>,
    pub waf_max_upload_size: Option<String>,
    pub waf_dashboard_path: Option<String>,
    pub waf_log_auto_delete: Option<String>,
    pub waf_log_retention_days: Option<String>,
    pub waf_log_retain_list: Option<String>,
    pub storage_driver: Option<String>,
    pub storage_redis_url: Option<String>,
    pub storage_postgres_url: Option<String>,
    pub ssl_enabled: Option<String>,
    pub ssl_domains: Option<String>,
    pub ssl_acme_email: Option<String>,
    pub ssl_cert_dir: Option<String>,
    pub ssl_port: Option<String>,
}

/// The settings that neither the environment nor the configuration file
/// change are equal in `a` and `b`.
pub open spec fn same_fixed_fields(a: Settings, b: Settings) -> bool {
    &&& a.host_forward == b.host_forward
    &&& a.get_ip_from_headers.trusted_proxies == b.get_ip_from_headers.trusted_proxies
    &&& a.static_extensions == b.static_extensions
    &&& a.project_root == b.project_root
    &&& a.db_root == b.db_root
    &&& a.template_root == b.template_root
    &&& a.page_root == b.page_root
    &&& a.upload_allowed_extensions == b.upload_allowed_extensions
    &&& a.rule_engine == b.rule_engine
    &&& a.ip_reputation_providers == b.ip_reputation_providers
    &&& a.behavior_profiling_enabled == b.behavior_profiling_enabled
    &&& a.behavior_window_seconds == b.behavior_window_seconds
    &&& a.llm_quick_model == b.llm_quick_model
    &&& a.llm_quick_base_url == b.llm_quick_base_url
    &&& a.llm_quick_api_key == b.llm_quick_api_key
    &&& a.llm_deep_model == b.llm_deep_model
    &&& a.llm_deep_base_url == b.llm_deep_base_url
    &&& a.llm_deep_api_key == b.llm_deep_api_key
    &&& a.cluster_mode == b.cluster_mode
    &&& a.cluster_role == b.cluster_role
    &&& a.cluster_redis_url == b.cluster_redis_url
    &&& a.waf_api_enabled == b.waf_api_enabled
    &&& a.waf_api_keys == b.waf_api_keys
    &&& a.auto_patch_enabled == b.auto_patch_enabled
}

/// The numeric settings that the environment may set are equal.
pub open spec fn same_numbers(a: Settings, b: Settings) -> bool {
    &&& a.waf_port == b.waf_port
    &&& a.session_timeout == b.session_timeout
    &&& a.cache_ttl == b.cache_ttl
    &&& a.session_gc_interval == b.session_gc_interval
    &&& a.cache_gc_interval == b.cache_gc_interval
    &&& a.rate_limit_per_sec == b.rate_limit_per_sec
    &&& a.rate_ban_threshold == b.rate_ban_threshold
    &&& a.rate_ban_duration_min == b.rate_ban_duration_min
    &&& a.rate_gc_interval == b.rate_gc_interval
    &&& a.challenge_expire == b.challenge_expire
    &&& a.upload_max_size == b.upload_max_size
    &&& a.log_retention_days == b.log_retention_days
    &&& a.ssl_port == b.ssl_port
}

/// The text settings that the environment may set are equal.
pub open spec fn same_texts(a: Settings, b: Settings) -> bool {
    &&& a.dashboard_password == b.dashboard_password
    &&& a.api_key == b.api_key
    &&& a.llm_model == b.llm_model
    &&& a.llm_base_url == b.llm_base_url
    &&& a.challenge_secret == b.challenge_secret
    &&& a.dashboard_path == b.dashboard_path
    &&& a.log_retain == b.log_retain
    &&& a.redis_url == b.redis_url
    &&& a.postgres_url == b.postgres_url
    &&& a.ssl_acme_email == b.ssl_acme_email
    &&& a.ssl_cert_dir == b.ssl_cert_dir
}

/// The flag settings and the storage driver are equal.
pub open spec fn same_flags(a: Settings, b: Settings) -> bool {
    &&& a.get_ip_from_headers.state == b.get_ip_from_headers.state
    &&& a.log_auto_delete == b.log_auto_delete
    &&& a.ssl_enabled == b.ssl_enabled
    &&& a.storage_driver == b.storage_driver
}

/// The list settings that the environment may set are equal.
pub open spec fn same_lists(a: Settings, b: Settings) -> bool {
    &&& a.cors_origins == b.cors_origins
    &&& a.get_ip_from_headers.order == b.get_ip_from_headers.order
    &&& a.ssl_domains == b.ssl_domains
    &&& a.proxy_map == b.proxy_map
}

/// The list settings that the environment may set hold the same texts.
pub open spec fn same_list_views(a: Settings, b: Settings) -> bool {
    &&& texts(a.cors_origins@) == texts(b.cors_origins@)
    &&& texts(a.get_ip_from_headers.order@) == texts(b.get_ip_from_headers.order@)
    &&& texts(a.ssl_domains@) == texts(b.ssl_domains@)
    &&& a.proxy_map == b.proxy_map
}

/// The numeric settings that the environment sets, as it sets them.
pub open spec fn env_numbers_applied(o: Settings, n: Settings, e: EnvVars) -> bool {
    &&& n.waf_port == match e.waf_port {
        Some(t) => match parse_u16_spec(t@) {
            Some(x) => x,
            None => o.waf_port,
        },
        None => o.waf_port,
    }
    &&& n.session_timeout == env_i64(e.waf_session_timeout, o.session_timeout)
    &&& n.cache_ttl == env_i64(e.waf_cache_ttl, o.cache_ttl)
    &&& n.session_gc_interval == env_i64(e.waf_session_gc_interval, o.session_gc_interval)
    &&& n.cache_gc_interval == env_i64(e.waf_cache_gc_interval, o.cache_gc_interval)
    &&& n.rate_limit_per_sec == env_i64(e.waf_rate_limit, o.rate_limit_per_sec)
    &&& n.rate_ban_threshold == env_i64(e.waf_ban_threshold, o.rate_ban_threshold)
    &&& n.rate_ban_duration_min == env_i64(e.waf_ban_duration, o.rate_ban_duration_min)
    &&& n.rate_gc_interval == env_i64(e.waf_rate_gc_interval, o.rate_gc_interval)
    &&& n.challenge_expire == env_i64(e.waf_challenge_expire, o.challenge_expire)
    &&& n.upload_max_size == match e.waf_max_upload_size {
        Some(t) => match parse_usize_spec(t@) {
            Some(x) => x,
            None => o.upload_max_size,
        },
        None => o.upload_max_size,
    }
    &&& n.log_retention_days == env_i64(e.waf_log_retention_days, o.log_retention_days)
    &&& n.ssl_port == match e.ssl_port {
        Some(t) => match parse_u16_spec(t@) {
            Some(x) => x,
            None => o.ssl_port,
        },
        None => o.ssl_port,
    }
}

/// The text settings that the environment sets, as it sets them.
pub open spec fn env_texts_applied(o: Settings, n: Settings, e: EnvVars) -> bool {
    &&& n.dashboard_password == env_text(e.waf_dashboard_password, o.dashboard_password)
    &&& n.api_key == env_text(e.waf_api_key, o.api_key)
    &&& n.llm_model == env_text(e.waf_llm_model, o.llm_model)
    &&& n.llm_base_url == env_text(e.waf_llm_base_url, o.llm_base_url)
    &&& n.challenge_secret == env_text(e.waf_challenge_secret, o.challenge_secret)
    &&& n.dashboard_path == env_text(e.waf_dashboard_path, o.dashboard_path)
    &&& n.log_retain == env_text(e.waf_log_retain_list, o.log_retain)
    &&& n.redis_url == env_text(e.storage_redis_url, o.redis_url)
    &&& n.postgres_url == env_text(e.storage_postgres_url, o.postgres_url)
    &&& n.ssl_acme_email == env_text(e.ssl_acme_email, o.ssl_acme_email)
    &&& n.ssl_cert_dir == env_text(e.ssl_cert_dir, o.ssl_cert_dir)
}

/// The flag settings and the storage driver that the environment sets, as
/// it sets them.
pub open spec fn env_flags_applied(o: Settings, n: Settings, e: EnvVars) -> bool {
    &&& n.get_ip_from_headers.state == env_flag(e.waf_trust_headers, o.get_ip_from_headers.state)
    &&& n.log_auto_delete == env_flag(e.waf_log_auto_delete, o.log_auto_delete)
    &&& n.ssl_enabled == env_flag(e.ssl_enabled, o.ssl_enabled)
    &&& n.storage_driver == match e.storage_driver {
        Some(t) => if lowercase(t@) == "msgpack"@ {
            StorageDriverType::MsgPack
        } else {
            o.storage_driver
        },
        None => o.storage_driver,
    }
}

/// The list settings that the environment sets, as it sets them: JSON
/// arrays of strings for the origins and the header order, a
/// comma-separated list for the domains.
pub open spec fn env_lists_applied(o: Settings, n: Settings, e: EnvVars) -> bool {
    &&& texts(n.cors_origins@) == match e.waf_cors_origins {
        Some(t) => match json_string_list(t@) {
            Some(l) => l,
            None => texts(o.cors_origins@),
        },
        None => texts(o.cors_origins@),
    }
    &&& texts(n.get_ip_from_headers.order@) == match e.waf_ip_header_order {
        Some(t) => match json_string_list(t@) {
            Some(l) => l,
            None => texts(o.get_ip_from_headers.order@),
        },
        None => texts(o.get_ip_from_headers.order@),
    }
    &&& texts(n.ssl_domains@) == match e.ssl_domains {
        Some(t) => comma_list(t@),
        None => texts(o.ssl_domains@),
    }
    &&& n.proxy_map == o.proxy_map
}

/// The fields that `config.json` may set.
#[derive(Debug, Clone)]
pub struct PersistedConfig {
    pub waf_port: Option<u16>,
    pub dashboard_password: Option<String>,
    pub cors_origins: Option<Vec<String>>,
    pub proxy_map: Option<Vec<(String, String)>>,
    pub dashboard_path: Option<String>,
    pub api_key: Option<String>,
    pub llm_model: Option<String>,
    pub llm_base_url: Option<String>,
    pub storage_driver: Option<StorageDriverType>,
    pub redis_url: Option<String>,
    pub postgres_url: Option<String>,
    pub ssl_enabled: Option<bool>,
    pub ssl_domains: Option<Vec<String>>,
    pub ssl_acme_email: Option<String>,
    pub ssl_cert_dir: Option<String>,
    pub ssl_port: Option<u16>,
}

/// A value given in the file, or the old one.
pub open spec fn given<T>(v: Option<T>, old: T) -> T {
    match v {
        Some(x) => x,
        None => old,
    }
}

/// The ways a configuration can be refused, in the order they are checked.
pub open spec fn proxy_map_error(m: Seq<(Seq<char>, Seq<char>)>) -> Option<Seq<char>>
    decreases m.len(),
{
    if m.len() == 0 {
        None
    } else {
        let (host, target) = m[0];
        if host.len() == 0 {
            Some("PROXY_MAP contains empty host key"@)
        } else if target.len() == 0 {
            Some("PROXY_MAP["@ + host + "] has empty target URL"@)
        } else if !(starts_with(target, "http://"@) || starts_with(target, "https://"@)) {
            Some("PROXY_MAP["@ + host + "] target must start with http:// or https://"@)
        } else {
            proxy_map_error(m.drop_first())
        }
    }
}

/// `s` begins with `p`.
pub open spec fn starts_with(s: Seq<char>, p: Seq<char>) -> bool {
    occurs_at(s, p, 0)
}

/// The first reason the settings are unusable, if any.
pub open spec fn validation_error(s: Settings) -> Option<Seq<char>> {
    if s.waf_port == 0 {
        Some("WAF_PORT cannot be 0"@)
    } else if s.ssl_enabled && s.ssl_port == 0 {
        Some("SSL_PORT cannot be 0 when SSL is enabled"@)
    } else if s.session_timeout <= 0 {
        Some("SESSION_TIMEOUT must be positive"@)
    } else if s.cache_ttl <= 0 {
        Some("CACHE_TTL must be positive"@)
    } else if s.rate_limit_per_sec <= 0 {
        Some("RATE_LIMIT_PER_SEC must be positive"@)
    } else if s.upload_max_size == 0 {
        Some("UPLOAD_MAX_SIZE cannot be 0"@)
    } else if s.challenge_secret@.len() == 0 {
        Some("CHALLENGE_SECRET cannot be empty"@)
    } else if s.challenge_expire <= 0 {
        Some("CHALLENGE_EXPIRE must be positive"@)
    } else if proxy_map_error(crate::proxy::pairs_view(s.proxy_map@)) is Some {
        proxy_map_error(crate::proxy::pairs_view(s.proxy_map@))
    } else if s.ssl_enabled && s.ssl_domains@.len() == 0 {
        Some("SSL_DOMAINS cannot be empty when SSL is enabled"@)
    } else if s.ssl_enabled && s.ssl_acme_email@.len() == 0 {
        Some("SSL_ACME_EMAIL cannot be empty when SSL is enabled"@)
    } else {
        None
    }
}

/// Replaces a value with the one given, if any.
fn set_given<T>(field: &mut T, v: Option<T>)
    ensures
        *final(field) == given(v, *old(field)),
{
    if let Some(x) = v {
        *field = x;
    }
}

/// The first problem of a proxy map, if any.
fn check_proxy_map(m: &Vec<(String, String)>) -> (r: Option<String>)
    ensures
        match proxy_map_error(crate::proxy::pairs_view(m@)) {
            Some(e) => r matches Some(x) && x@ == e,
            None => r is None,
        },
{
    let ghost all = crate::proxy::pairs_view(m@);
    let http = chars_of("http://");
    let https = chars_of("https://");
    let mut i: usize = 0;
    assert(all.skip(0) =~= all);
    while i < m.len()
        invariant
            i <= m@.len(),
            all == crate::proxy::pairs_view(m@),
            http@ == "http://"@,
            https@ == "https://"@,
            proxy_map_error(all) == proxy_map_error(all.skip(i as int)),
        decreases m.len() - i,
    {
        assert(all.skip(i as int).drop_first() =~= all.skip(i + 1));
        assert(all.skip(i as int)[0] == (m@[i as int].0@, m@[i as int].1@));
        let host = chars_of(m[i].0.as_str());
        let target = chars_of(m[i].1.as_str());
        if host.len() == 0 {
            return Some(owned_text("PROXY_MAP contains empty host key"));
        }
        if target.len() == 0 {
            let mut msg = chars_of("PROXY_MAP[");
            append_chars(&mut msg, host.as_slice());
            append_chars(&mut msg, chars_of("] has empty target URL").as_slice());
            return Some(string_from_chars(msg.as_slice()));
        }
        if !(matches_at(target.as_slice(), http.as_slice(), 0) || matches_at(target.as_slice(), https.as_slice(), 0)) {
            let mut msg = chars_of("PROXY_MAP[");
            append_chars(&mut msg, host.as_slice());
            append_chars(&mut msg, chars_of("] target must start with http:// or https://").as_slice());
            return Some(string_from_chars(msg.as_slice()));
        }
        i = i + 1;
    }
    None
}

fn err_text(s: &str) -> (r: Result<(), String>)
    ensures
        r matches Err(m) && m@ == s@,
{
    Err(owned_text(s))
}

impl Settings {
    /// The default settings for a project directory, with the given
    /// dashboard password and challenge secret.
    pub fn defaults(project_root: &str, dashboard_password: String, challenge_secret: String) -> (s: Settings)
        ensures
            s.waf_port == 8080,
            s.dashboard_password == dashboard_password,
            texts(s.cors_origins@) == seq!["http://ip.zplb.org.cn:7000"@],
            !s.host_forward,
            s.proxy_map@.len() == 0,
            s.api_key@ == Seq::<char>::empty(),
            s.llm_model@ == "qwen-plus"@,
            s.llm_base_url@ == "https://dashscope.aliyuncs.com/compatible-mode/v1"@,
            s.session_timeout == 20 && s.cache_ttl == 3600,
            s.session_gc_interval == 5 && s.cache_gc_interval == 30,
            s.get_ip_from_headers.state,
            texts(s.get_ip_from_headers.order@) == seq!["CF-Connecting-IP"@, "X-Real-IP"@, "X-Forwarded-For"@],
            s.get_ip_from_headers.trusted_proxies@.len() == 0,
            s.rate_limit_per_sec == 15 && s.rate_ban_threshold == 30,
            s.rate_ban_duration_min == 60 && s.rate_gc_interval == 10,
            texts(s.static_extensions@) == default_static_extensions(),
            s.project_root@ == project_root@,
            s.db_root@ == joined_path(project_root@, "data"@),
            s.template_root@ == joined_path(project_root@, "templates"@),
            s.page_root@ == joined_path(project_root@, "page"@),
            s.challenge_secret == challenge_secret,
            s.challenge_expire == 3600,
            s.upload_max_size == 10 * 1024 * 1024,
            texts(s.upload_allowed_extensions@) == default_upload_extensions(),
            s.dashboard_path@ == "/biubo-cgi"@,
            !s.log_auto_delete && s.log_retention_days == 30,
            s.log_retain@ == "type:hacker"@,
            s.storage_driver == StorageDriverType::MsgPack,
            s.redis_url@.len() == 0 && s.postgres_url@.len() == 0,
            !s.ssl_enabled && s.ssl_domains@.len() == 0 && s.ssl_acme_email@.len() == 0,
            s.ssl_cert_dir@ == joined_path(project_root@, "ssl"@),
            s.ssl_port == 443,
            s.rule_engine.paranoia_level == 1 && s.rule_engine.rule_paths@.len() == 0,
            !s.rule_engine.crs_auto_update,
            s.ip_reputation_providers@.len() == 0,
            !s.behavior_profiling_enabled && s.behavior_window_seconds == 3600,
            s.llm_quick_model@ == "qwen-turbo"@,
            s.llm_quick_base_url@ == "https://dashscope.aliyuncs.com/compatible-mode/v1"@,
            s.llm_quick_api_key@.len() == 0,
            s.llm_deep_model@ == "qwen-plus"@,
            s.llm_deep_base_url@ == "https://dashscope.aliyuncs.com/compatible-mode/v1"@,
            s.llm_deep_api_key@.len() == 0,
            !s.cluster_mode && s.cluster_role == ClusterRole::Worker && s.cluster_redis_url is None,
            !s.waf_api_enabled && s.waf_api_keys@.len() == 0 && !s.auto_patch_enabled,
    {
        let mut cors: Vec<String> = Vec::new();
        cors.push(owned_text("http://ip.zplb.org.cn:7000"));
        assert(texts(cors@) =~= seq!["http://ip.zplb.org.cn:7000"@]);
        let mut order: Vec<String> = Vec::new();
        push_owned(&mut order, "CF-Connecting-IP");
        push_owned(&mut order, "X-Real-IP");
        push_owned(&mut order, "X-Forwarded-For");
        assert(texts(order@) =~= seq!["CF-Connecting-IP"@, "X-Real-IP"@, "X-Forwarded-For"@]);
        Settings {
            waf_port: 8080,
            dashboard_password,
            cors_origins: cors,
            host_forward: false,
            proxy_map: Vec::new(),
            api_key: String::new(),
            llm_model: owned_text("qwen-plus"),
            llm_base_url: owned_text("https://dashscope.aliyuncs.com/compatible-mode/v1"),
            session_timeout: 20,
            cache_ttl: 3600,
            session_gc_interval: 5,
            cache_gc_interval: 30,
            get_ip_from_headers: IpHeaderConfig { state: true, order, trusted_proxies: Vec::new() },
            rate_limit_per_sec: 15,
            rate_ban_threshold: 30,
            rate_ban_duration_min: 60,
            rate_gc_interval: 10,
            static_extensions: static_extensions(),
            project_root: owned_text(project_root),
            db_root: path_join(project_root, "data"),
            template_root: path_join(project_root, "templates"),
            page_root: path_join(project_root, "page"),
            challenge_secret,
            challenge_expire: 3600,
            upload_max_size: 10 * 1024 * 1024,
            upload_allowed_extensions: upload_extensions(),
            dashboard_path: owned_text("/biubo-cgi"),
            log_auto_delete: false,
            log_retention_days: 30,
            log_retain: owned_text("type:hacker"),
            storage_driver: StorageDriverType::MsgPack,
            redis_url: String::new(),
            postgres_url: String::new(),
            ssl_enabled: false,
            ssl_domains: Vec::new(),
            ssl_acme_email: String::new(),
            ssl_cert_dir: path_join(project_root, "ssl"),
            ssl_port: 443,
            rule_engine: RuleEngineConfig { paranoia_level: 1, rule_paths: Vec::new(), crs_auto_update: false },
            ip_reputation_providers: Vec::new(),
            behavior_profiling_enabled: false,
            behavior_window_seconds: 3600,
            llm_quick_model: owned_text("qwen-turbo"),
            llm_quick_base_url: owned_text("https://dashscope.aliyuncs.com/compatible-mode/v1"),
            llm_quick_api_key: String::new(),
            llm_deep_model: owned_text("qwen-plus"),
            llm_deep_base_url: owned_text("https://dashscope.aliyuncs.com/compatible-mode/v1"),
            llm_deep_api_key: String::new(),
            cluster_mode: false,
            cluster_role: ClusterRole::Worker,
            cluster_redis_url: None,
            waf_api_enabled: false,
            waf_api_keys: Vec::new(),
            auto_patch_enabled: false,
        }
    }

    /// Checks the settings: ports, positive timeouts and limits, a
    /// challenge secret, well-formed proxy targets, and the SSL details
    /// when SSL is on; the first problem found is the error.
    pub fn validate(&self) -> (r: Result<(), String>)
        ensures
            match validation_error(*self) {
                Some(m) => r matches Err(e) && e@ == m,
                None => r is Ok,
            },
    {
        if self.waf_port == 0 {
            return err_text("WAF_PORT cannot be 0");
        }
        if self.ssl_enabled && self.ssl_port == 0 {
            return err_text("SSL_PORT cannot be 0 when SSL is enabled");
        }
        if self.session_timeout <= 0 {
            return err_text("SESSION_TIMEOUT must be positive");
        }
        if self.cache_ttl <= 0 {
            return err_text("CACHE_TTL must be positive");
        }
        if self.rate_limit_per_sec <= 0 {
            return err_text("RATE_LIMIT_PER_SEC must be positive");
        }
        if self.upload_max_size == 0 {
            return err_text("UPLOAD_MAX_SIZE cannot be 0");
        }
        if self.challenge_secret.as_str().is_empty() {
            return err_text("CHALLENGE_SECRET cannot be empty");
        }
        if self.challenge_expire <= 0 {
            return err_text("CHALLENGE_EXPIRE must be positive");
        }
        match check_proxy_map(&self.proxy_map) {
            Some(m) => {
                return Err(m);
            },
            None => {},
        }
        if self.ssl_enabled && self.ssl_domains.len() == 0 {
            return err_text("SSL_DOMAINS cannot be empty when SSL is enabled");
        }
        if self.ssl_enabled && self.ssl_acme_email.as_str().is_empty() {
            return err_text("SSL_ACME_EMAIL cannot be empty when SSL is enabled");
        }
        Ok(())
    }

    /// Whether setup is done: at least one site is proxied.
    pub fn is_initialized(&self) -> (b: bool)
        ensures
            b == (self.proxy_map@.len() > 0),
    {
        self.proxy_map.len() > 0
    }

    /// Takes over what the environment sets: numbers that parse, texts as
    /// they are, flags that read `true` in any case, JSON string lists that
    /// parse, the comma-separated SSL domains, and the `msgpack` driver.
    pub fn apply_env_vars(&mut self, env: EnvVars)
        ensures
            env_numbers_applied(*old(self), *final(self), env),
            env_texts_applied(*old(self), *final(self), env),
            env_flags_applied(*old(self), *final(self), env),
            env_lists_applied(*old(self), *final(self), env),
            same_fixed_fields(*old(self), *final(self)),
    {
        self.apply_env_numbers(&env);
        self.apply_env_lists(&env);
        self.apply_env_flags(&env);
        self.apply_env_texts(env);
    }

    fn apply_env_numbers(&mut self, env: &EnvVars)
        ensures
            env_numbers_applied(*old(self), *final(self), *env),
            same_texts(*old(self), *final(self)),
            same_flags(*old(self), *final(self)),
            same_lists(*old(self), *final(self)),
            same_fixed_fields(*old(self), *final(self)),
    {
        set_u16(&mut self.waf_port, &env.waf_port);
        set_i64(&mut self.session_timeout, &env.waf_session_timeout);
        set_i64(&mut self.cache_ttl, &env.waf_cache_ttl);
        set_i64(&mut self.session_gc_interval, &env.waf_session_gc_interval);
        set_i64(&mut self.cache_gc_interval, &env.waf_cache_gc_interval);
        set_i64(&mut self.rate_limit_per_sec, &env.waf_rate_limit);
        set_i64(&mut self.rate_ban_threshold, &env.waf_ban_threshold);
        set_i64(&mut self.rate_ban_duration_min, &env.waf_ban_duration);
        set_i64(&mut self.rate_gc_interval, &env.waf_rate_gc_interval);
        set_i64(&mut self.challenge_expire, &env.waf_challenge_expire);
        set_usize(&mut self.upload_max_size, &env.waf_max_upload_size);
        set_i64(&mut self.log_retention_days, &env.waf_log_retention_days);
        set_u16(&mut self.ssl_port, &env.ssl_port);
    }

    fn apply_env_lists(&mut self, env: &EnvVars)
        ensures
            env_lists_applied(*old(self), *final(self), *env),
            same_numbers(*old(self), *final(self)),
            same_texts(*old(self), *final(self)),
            same_flags(*old(self), *final(self)),
            same_fixed_fields(*old(self), *final(self)),
    {
        set_json_list(&mut self.cors_origins, &env.waf_cors_origins);
        set_json_list(&mut self.get_ip_from_headers.order, &env.waf_ip_header_order);
        if let Some(t) = &env.ssl_domains {
            self.ssl_domains = parse_comma_list(t.as_str());
        }
    }

    fn apply_env_flags(&mut self, env: &EnvVars)
        ensures
            env_flags_applied(*old(self), *final(self), *env),
            same_numbers(*old(self), *final(self)),
            same_texts(*old(self), *final(self)),
            same_lists(*old(self), *final(self)),
            same_fixed_fields(*old(self), *final(self)),
    {
        set_flag(&mut self.get_ip_from_headers.state, &env.waf_trust_headers);
        set_flag(&mut self.log_auto_delete, &env.waf_log_auto_delete);
        set_flag(&mut self.ssl_enabled, &env.ssl_enabled);
        if let Some(t) = &env.storage_driver {
            let l = chars_of(to_lowercase(t.as_str()).as_str());
            let m = chars_of("msgpack");
            if vec_eq(&l, &m) {
                self.storage_driver = StorageDriverType::MsgPack;
            }
        }
    }

    fn apply_env_texts(&mut self, env: EnvVars)
        ensures
            env_texts_applied(*old(self), *final(self), env),
            same_numbers(*old(self), *final(self)),
            same_flags(*old(self), *final(self)),
            same_lists(*old(self), *final(self)),
            same_fixed_fields(*old(self), *final(self)),
    {
        let EnvVars {
            waf_dashboard_password, waf_api_key, waf_llm_model, waf_llm_base_url,
            waf_challenge_secret, waf_dashboard_path, waf_log_retain_list, storage_redis_url,
            storage_postgres_url, ssl_acme_email, ssl_cert_dir, ..
        } = env;
        set_given(&mut self.dashboard_password, waf_dashboard_password);
        set_given(&mut self.api_key, waf_api_key);
        set_given(&mut self.llm_model, waf_llm_model);
        set_given(&mut self.llm_base_url, waf_llm_base_url);
        set_given(&mut self.challenge_secret, waf_challenge_secret);
        set_given(&mut self.dashboard_path, waf_dashboard_path);
        set_given(&mut self.log_retain, waf_log_retain_list);
        set_given(&mut self.redis_url, storage_redis_url);
        set_given(&mut self.postgres_url, storage_postgres_url);
        set_given(&mut self.ssl_acme_email, ssl_acme_email);
        set_given(&mut self.ssl_cert_dir, ssl_cert_dir);
    }

    /// Takes over every field that `config.json` gives.
    pub fn apply_persisted(&mut self, cfg: PersistedConfig)
        ensures
            final(self).waf_port == given(cfg.waf_port, old(self).waf_port),
            final(self).dashboard_password == given(cfg.dashboard_password, old(self).dashboard_password),
            final(self).cors_origins == given(cfg.cors_origins, old(self).cors_origins),
            final(self).proxy_map == given(cfg.proxy_map, old(self).proxy_map),
            final(self).dashboard_path == given(cfg.dashboard_path, old(self).dashboard_path),
            final(self).api_key == given(cfg.api_key, old(self).api_key),
            final(self).llm_model == given(cfg.llm_model, old(self).llm_model),
            final(self).llm_base_url == given(cfg.llm_base_url, old(self).llm_base_url),
            final(self).storage_driver == given(cfg.storage_driver, old(self).storage_driver),
            final(self).redis_url == given(cfg.redis_url, old(self).redis_url),
            final(self).postgres_url == given(cfg.postgres_url, old(self).postgres_url),
            final(self).ssl_enabled == given(cfg.ssl_enabled, old(self).ssl_enabled),
            final(self).ssl_domains == given(cfg.ssl_domains, old(self).ssl_domains),
            final(self).ssl_acme_email == given(cfg.ssl_acme_email, old(self).ssl_acme_email),
            final(self).ssl_cert_dir == given(cfg.ssl_cert_dir, old(self).ssl_cert_dir),
            final(self).ssl_port == given(cfg.ssl_port, old(self).ssl_port),
            same_fixed_fields(*old(self), *final(self)),
            final(self).session_timeout == old(self).session_timeout,
            final(self).challenge_secret == old(self).challenge_secret,
            final(self).get_ip_from_headers == old(self).get_ip_from_headers,
    {
        set_given(&mut self.waf_port, cfg.waf_port);
        set_given(&mut self.dashboard_password, cfg.dashboard_password);
        set_given(&mut self.cors_origins, cfg.cors_origins);
        set_given(&mut self.proxy_map, cfg.proxy_map);
        set_given(&mut self.dashboard_path, cfg.dashboard_path);
        set_given(&mut self.api_key, cfg.api_key);
        set_given(&mut self.llm_model, cfg.llm_model);
        set_given(&mut self.llm_base_url, cfg.llm_base_url);
        set_given(&mut self.storage_driver, cfg.storage_driver);
        set_given(&mut self.redis_url, cfg.redis_url);
        set_given(&mut self.postgres_url, cfg.postgres_url);
        set_given(&mut self.ssl_enabled, cfg.ssl_enabled);
        set_given(&mut self.ssl_domains, cfg.ssl_domains);
        set_given(&mut self.ssl_acme_email, cfg.ssl_acme_email);
        set_given(&mut self.ssl_cert_dir, cfg.ssl_cert_dir);
        set_given(&mut self.ssl_port, cfg.ssl_port);
    }
}

/// The default settings pass validation whenever the challenge secret is
/// not empty.
pub proof fn law_defaults_are_valid(s: Settings)
    requires
        s.waf_port == 8080,
        !s.ssl_enabled,
        s.session_timeout == 20,
        s.cache_ttl == 3600,
        s.rate_limit_per_sec == 15,
        s.upload_max_size == 10 * 1024 * 1024,
        s.challenge_secret@.len() > 0,
        s.challenge_expire == 3600,
        s.proxy_map@.len() == 0,
    ensures
        validation_error(s) is None,
{
    assert(crate::proxy::pairs_view(s.proxy_map@) =~= Seq::<(Seq<char>, Seq<char>)>::empty());
}

} // verus!
