//! Storage settings and records: which driver a configuration selects, the
//! file of a MessagePack store, ban and whitelist records, when a ban is in
//! force, and how a log entry joins the day's log.
use vstd::prelude::*;
use crate::text::{chars_of, string_from_chars, vec_eq, append_chars};
use crate::paths::{path_extension, path_with_extension, file_extension, with_extension};
use crate::errors::io_error_text;

verus! {

/// The kinds of storage back end.
#[derive(Debug, Clone, Copy, PartialEq, Eq, Structural)]
pub enum StorageDriverType {
    MsgPack,
    Redis,
    PostgreSQL,
}

/// Which back end to use and how to reach it.
#[derive(Debug, Clone)]
pub struct StorageConfig {
    pub driver_type: StorageDriverType,
    pub redis_url: Option<String>,
    pub postgres_url: Option<String>,
    pub msgpack_path: Option<String>,
    pub flush_interval: Option<u64>,
}

impl Default for StorageConfig {
    /// A MessagePack store flushed every five seconds, at the default path.
    fn default() -> (c: Self)
        ensures
            c.driver_type == StorageDriverType::MsgPack,
            c.redis_url is None,
            c.postgres_url is None,
            c.msgpack_path is None,
            c.flush_interval == Some(5u64),
    {
        StorageConfig {
            driver_type: StorageDriverType::MsgPack,
            redis_url: None,
            postgres_url: None,
            msgpack_path: None,
            flush_interval: Some(5),
        }
    }
}

/// Errors of storage back ends.
#[derive(Debug)]
pub enum StorageDriverError {
    ConnectionError(String),
    OperationError(String),
    IoError(std::io::Error),
}

impl StorageDriverError {
    /// The error's message: `Connection error: `, `Operation error: ` or
    /// `IO error: ` followed by its text.
    pub fn message(&self) -> (m: String)
        ensures
            self matches StorageDriverError::ConnectionError(s) ==> m@ == "Connection error: "@ + s@,
            self matches StorageDriverError::OperationError(s) ==> m@ == "Operation error: "@ + s@,
            self is IoError ==> m@.len() >= 10 && m@.take(10) == "IO error: "@,
    {
        proof {
            reveal_strlit("Connection error: ");
            reveal_strlit("Operation error: ");
            reveal_strlit("IO error: ");
        }
        let (prefix, detail) = match self {
            StorageDriverError::ConnectionError(s) => ("Connection error: ", s.clone()),
            StorageDriverError::OperationError(s) => ("Operation error: ", s.clone()),
            StorageDriverError::IoError(e) => ("IO error: ", io_error_text(e)),
        };
        let mut out = chars_of(prefix);
        let ghost p = out@;
        append_chars(&mut out, chars_of(detail.as_str()).as_slice());
        assert(out@.take(p.len() as int) =~= p);
        string_from_chars(out.as_slice())
    }
}

impl From<std::io::Error> for StorageDriverError {
    fn from(e: std::io::Error) -> (r: Self) {
        StorageDriverError::IoError(e)
    }
}

impl vstd::std_specs::convert::FromSpecImpl<std::io::Error> for StorageDriverError {
    open spec fn obeys_from_spec() -> bool {
        true
    }

    open spec fn from_spec(e: std::io::Error) -> Self {
        StorageDriverError::IoError(e)
    }
}

/// The file extension of MessagePack stores.
pub open spec fn msgpack_ext() -> Seq<char> {
    "msgpack"@
}

/// A store path with the `msgpack` extension: kept when it has it, else
/// given it (an existing extension is replaced).
pub open spec fn normalized_path(p: Seq<char>) -> Seq<char> {
    if path_extension(p) == Some(msgpack_ext()) {
        p
    } else {
        path_with_extension(p, msgpack_ext())
    }
}

/// Gives a store path the `msgpack` extension unless it has it.
pub fn normalize_path(path: &str) -> (p: String)
    ensures
        p@ == normalized_path(path@),
{
    proof {
        reveal_strlit("msgpack");
    }
    let keep = match file_extension(path) {
        Some(e) => {
            let ec = chars_of(e.as_str());
            let m = chars_of("msgpack");
            vec_eq(&ec, &m)
        },
        None => false,
    };
    if keep {
        string_from_chars(chars_of(path).as_slice())
    } else {
        with_extension(path, "msgpack")
    }
}

/// A MessagePack store: its normalized file, no backups kept beyond five,
/// and the write-behind flush period.
#[derive(Debug, Clone)]
pub struct MsgPackDriver {
    pub path: String,
    pub auto_backup: bool,
    pub max_backup_count: usize,
    pub flush_interval_secs: u64,
}

impl MsgPackDriver {
    /// The store at `path` (normalized) flushed every `flush_interval_secs`.
    pub fn new(path: &str, flush_interval_secs: u64) -> (d: Self)
        ensures
            d.path@ == normalized_path(path@),
            !d.auto_backup,
            d.max_backup_count == 5,
            d.flush_interval_secs == flush_interval_secs,
    {
        MsgPackDriver {
            path: normalize_path(path),
            auto_backup: false,
            max_backup_count: 5,
            flush_interval_secs,
        }
    }
}

/// The back end a configuration opens.
#[derive(Debug, Clone)]
pub enum DriverPlan {
    /// A MessagePack file with its flush period in seconds.
    MsgPack(MsgPackDriver),
    /// A Redis server at the URL.
    Redis(String),
    /// A PostgreSQL server at the URL.
    PostgreSQL(String),
}

/// The back end that `config` selects: a MessagePack file (`data.msgpack`
/// and a five-second flush unless given), or a Redis or PostgreSQL server,
/// whose URL must be given.
pub fn plan_driver(config: StorageConfig) -> (r: Result<DriverPlan, StorageDriverError>)
    ensures
        match config.driver_type {
            StorageDriverType::MsgPack => r matches Ok(DriverPlan::MsgPack(d))
                && d.path@ == normalized_path(match config.msgpack_path {
                    Some(p) => p@,
                    None => "data.msgpack"@,
                })
                && d.flush_interval_secs == (match config.flush_interval {
                    Some(n) => n,
                    None => 5,
                }),
            StorageDriverType::Redis => match config.redis_url {
                Some(u) => r matches Ok(DriverPlan::Redis(v)) && v@ == u@,
                None => r matches Err(StorageDriverError::ConnectionError(m))
                    && m@ == "Redis URL is required for Redis driver"@,
            },
            StorageDriverType::PostgreSQL => match config.postgres_url {
                Some(u) => r matches Ok(DriverPlan::PostgreSQL(v)) && v@ == u@,
                None => r matches Err(StorageDriverError::ConnectionError(m))
                    && m@ == "PostgreSQL URL is required for PostgreSQL driver"@,
            },
        },
{
    proof {
        reveal_strlit("data.msgpack");
        reveal_strlit("Redis URL is required for Redis driver");
        reveal_strlit("PostgreSQL URL is required for PostgreSQL driver");
    }
    match config.driver_type {
        StorageDriverType::MsgPack => {
            let path = match config.msgpack_path {
                Some(p) => p,
                None => string_from_chars(chars_of("data.msgpack").as_slice()),
            };
            let flush = match config.flush_interval {
                Some(n) => n,
                None => 5,
            };
            Ok(DriverPlan::MsgPack(MsgPackDriver::new(path.as_str(), flush)))
        },
        StorageDriverType::Redis => match config.redis_url {
            Some(u) => Ok(DriverPlan::Redis(u)),
            None => Err(StorageDriverError::ConnectionError(
                string_from_chars(chars_of("Redis URL is required for Redis driver").as_slice()),
            )),
        },
        StorageDriverType::PostgreSQL => match config.postgres_url {
            Some(u) => Ok(DriverPlan::PostgreSQL(u)),
            None => Err(StorageDriverError::ConnectionError(
                string_from_chars(chars_of("PostgreSQL URL is required for PostgreSQL driver").as_slice()),
            )),
        },
    }
}

// ------------------------------------------------------------ records

/// A banned address: why, for how many minutes (none: for good), when
/// (RFC 3339) and where from.
#[derive(Debug, Clone)]
pub struct BanRecord {
    pub reason: String,
    pub expire: Option<u32>,
    pub added_at: String,
    pub country: String,
    pub city: String,
}

/// A whitelisted address: a remark and when it was added.
#[derive(Debug, Clone)]
pub struct WhitelistRecord {
    pub remark: String,
    pub added_at: String,
}

/// The `expire` field of a stored ban record, as far as the ban check reads it.
#[derive(Debug, Clone, Copy, PartialEq, Eq, Structural)]
pub enum ExpireValue {
    /// The field is missing.
    Absent,
    /// `null`: banned for good.
    Null,
    /// A boolean; `true` marks a temporary ban lifted by a captcha.
    Flag(bool),
    /// A whole number of minutes.
    Minutes(u64),
    /// Anything else.
    Other,
}

/// What the ban check reads of a stored ban record.
#[derive(Debug, Clone)]
pub struct BanEntry {
    pub expire: ExpireValue,
    pub added_at: Option<String>,
}

/// The outcome of a ban check.
#[derive(Debug, Clone, Copy, PartialEq, Eq, Structural)]
pub enum BanState {
    /// No record.
    NotBanned,
    /// The ban is in force.
    Banned,
    /// The ban ran out: the record is to be removed and the address is free.
    Expired,
}

/// The instant that `chrono::DateTime::parse_from_rfc3339` reads from a
/// text, as Unix seconds and the nanoseconds within the second.
pub uninterp spec fn rfc3339_instant(s: Seq<char>) -> Option<(i64, u32)>;

/// Parses an RFC 3339 time with `chrono`; the result is its UTC instant.
#[verifier::external_body]
fn parse_rfc3339(s: &str) -> (r: Option<(i64, u32)>)
    ensures
        r == rfc3339_instant(s@),
{
    chrono::DateTime::parse_from_rfc3339(s).ok().map(|d| (d.timestamp(), d.timestamp_subsec_nanos()))
}

/// Nanoseconds per minute.
pub open spec fn nanos_per_minute() -> int {
    60_000_000_000
}

/// The state of a ban at `now` (Unix nanoseconds): without a record, not
/// banned; a record with a whole number of minutes and a readable time ends
/// that many minutes after it; every other record holds for good.
pub open spec fn ban_state_spec(entry: Option<(ExpireValue, Option<Seq<char>>)>, now: int) -> BanState {
    match entry {
        None => BanState::NotBanned,
        Some((expire, added_at)) => match expire {
            ExpireValue::Minutes(m) => match added_at {
                Some(t) => match rfc3339_instant(t) {
                    Some((secs, sub)) => if now >= secs * 1_000_000_000 + sub + m * nanos_per_minute() {
                        BanState::Expired
                    } else {
                        BanState::Banned
                    },
                    None => BanState::Banned,
                },
                None => BanState::Banned,
            },
            _ => BanState::Banned,
        },
    }
}

/// The plain view of a ban entry.
pub open spec fn ban_entry_view(e: Option<&BanEntry>) -> Option<(ExpireValue, Option<Seq<char>>)> {
    match e {
        Some(b) => Some((b.expire, match b.added_at {
            Some(t) => Some(t@),
            None => None,
        })),
        None => None,
    }
}

/// The state at `now` (Unix nanoseconds) of the ban that `entry` records.
pub fn ban_state(entry: Option<&BanEntry>, now: u64) -> (s: BanState)
    ensures
        s == ban_state_spec(ban_entry_view(entry), now as int),
{
    match entry {
        None => BanState::NotBanned,
        Some(b) => match b.expire {
            ExpireValue::Minutes(m) => match &b.added_at {
                Some(t) => match parse_rfc3339(t.as_str()) {
                    Some((secs, sub)) => {
                        let end: i128 = (secs as i128) * 1_000_000_000 + (sub as i128) + (m as i128) * 60_000_000_000;
                        if (now as i128) >= end {
                            BanState::Expired
                        } else {
                            BanState::Banned
                        }
                    },
                    None => BanState::Banned,
                },
                None => BanState::Banned,
            },
            _ => BanState::Banned,
        },
    }
}

/// Whether a ban record marks a temporary ban (its `expire` is `true`).
pub fn is_temporary_ban(entry: Option<&BanEntry>) -> (b: bool)
    ensures
        b == (ban_entry_view(entry) matches Some((e, _)) && e == ExpireValue::Flag(true)),
{
    match entry {
        Some(e) => e.expire == ExpireValue::Flag(true),
        None => false,
    }
}

/// The `expire` value stored for a ban of `minutes` (none: for good).
pub fn expire_for(minutes: Option<u32>) -> (v: ExpireValue)
    ensures
        v == match minutes {
            Some(n) => ExpireValue::Minutes(n as u64),
            None => ExpireValue::Null,
        },
{
    match minutes {
        Some(n) => ExpireValue::Minutes(n as u64),
        None => ExpireValue::Null,
    }
}

/// A ban as the blacklist keeps it: why, and what the ban check reads.
#[derive(Debug, Clone)]
pub struct BlacklistEntry {
    pub reason: String,
    pub ban: BanEntry,
}

/// The addresses of blacklist entries, in order.
pub open spec fn ban_keys(s: Seq<(String, BlacklistEntry)>) -> Seq<Seq<char>> {
    s.map_values(|e: (String, BlacklistEntry)| e.0@)
}

/// The banned addresses with their records, each address once.
pub struct Blacklist {
    entries: Vec<(String, BlacklistEntry)>,
}

impl Blacklist {
    /// The entries in order.
    pub closed spec fn entries(&self) -> Seq<(String, BlacklistEntry)> {
        self.entries@
    }

    /// Each address is listed once.
    pub open spec fn wf(&self) -> bool {
        ban_keys(self.entries()).no_duplicates()
    }

    /// An empty blacklist.
    pub fn new() -> (b: Self)
        ensures
            b.wf(),
            b.entries().len() == 0,
    {
        let b = Blacklist { entries: Vec::new() };
        assert(ban_keys(b.entries()) =~= Seq::<Seq<char>>::empty());
        b
    }

    /// The entries in order.
    pub fn records(&self) -> (r: &Vec<(String, BlacklistEntry)>)
        ensures
            r@ == self.entries(),
    {
        &self.entries
    }

    fn position(&self, ip: &str) -> (r: Option<usize>)
        ensures
            match r {
                Some(i) => i < self.entries().len() && self.entries()[i as int].0@ == ip@,
                None => forall|j: int| 0 <= j < self.entries().len() ==> self.entries()[j].0@ != ip@,
            },
    {
        let mut i: usize = 0;
        while i < self.entries.len()
            invariant
                i <= self.entries@.len(),
                forall|j: int| 0 <= j < i ==> self.entries@[j].0@ != ip@,
            decreases self.entries.len() - i,
        {
            if crate::text::str_eq(self.entries[i].0.as_str(), ip) {
                return Some(i);
            }
            i = i + 1;
        }
        None
    }

    proof fn lemma_unique(&self, i: int, j: int)
        requires
            self.wf(),
            0 <= i < self.entries().len(),
            0 <= j < self.entries().len(),
            self.entries()[i].0@ == self.entries()[j].0@,
        ensures
            i == j,
    {
        if i != j {
            assert(ban_keys(self.entries())[i] == ban_keys(self.entries())[j]);
        }
    }

    /// The record of `ip`.
    pub fn get(&self, ip: &str) -> (r: Option<&BlacklistEntry>)
        requires
            self.wf(),
        ensures
            match r {
                Some(rec) => exists|i: int| 0 <= i < self.entries().len() && self.entries()[i].0@ == ip@
                    && #[trigger] self.entries()[i].1 == *rec,
                None => forall|i: int| 0 <= i < self.entries().len() ==> self.entries()[i].0@ != ip@,
            },
    {
        match self.position(ip) {
            Some(i) => Some(&self.entries[i].1),
            None => None,
        }
    }

    /// Stores the record of `ip`, replacing any.
    pub fn insert(&mut self, ip: String, record: BlacklistEntry)
        requires
            old(self).wf(),
        ensures
            final(self).wf(),
            match ban_keys(old(self).entries()).index_of_first(ip@) {
                Some(i) => final(self).entries() == old(self).entries().update(i, (ip, record)),
                None => final(self).entries() == old(self).entries().push((ip, record)),
            },
    {
        let ghost before = self.entries();
        proof { ban_keys(before).index_of_first_ensures(ip@); }
        match self.position(ip.as_str()) {
            Some(i) => {
                proof {
                    assert(ban_keys(before)[i as int] == ip@);
                    let k = ban_keys(before).index_of_first(ip@)->0;
                    self.lemma_unique(i as int, k);
                }
                self.entries.set(i, (ip, record));
                assert(ban_keys(self.entries()) =~= ban_keys(before));
            },
            None => {
                proof {
                    if ban_keys(before).contains(ip@) {
                        let k = ban_keys(before).index_of_first(ip@)->0;
                        assert(before[k].0@ == ip@);
                    }
                }
                self.entries.push((ip, record));
                assert(ban_keys(self.entries()) =~= ban_keys(before).push(ip@));
                assert forall|a: int, b: int| 0 <= a < self.entries().len() && 0 <= b < self.entries().len() && a != b
                    implies ban_keys(self.entries())[a] != ban_keys(self.entries())[b] by {
                    if a < before.len() && b < before.len() {
                        assert(ban_keys(before)[a] != ban_keys(before)[b]);
                    }
                }
            },
        }
    }

    /// Removes the record at index `i`.
    fn remove_at(&mut self, i: usize)
        requires
            old(self).wf(),
            i < old(self).entries().len(),
        ensures
            final(self).wf(),
            final(self).entries() == old(self).entries().remove(i as int),
    {
        let ghost before = self.entries();
        self.entries.remove(i);
        assert(ban_keys(self.entries()) =~= ban_keys(before).remove(i as int));
        assert forall|a: int, b: int| 0 <= a < self.entries().len() && 0 <= b < self.entries().len() && a != b
            implies ban_keys(self.entries())[a] != ban_keys(self.entries())[b] by {
            let a0 = if a < i { a } else { a + 1 };
            let b0 = if b < i { b } else { b + 1 };
            assert(ban_keys(before)[a0] != ban_keys(before)[b0]);
        }
    }

    /// Lifts the ban of `ip`; says whether there was one.
    pub fn remove(&mut self, ip: &str) -> (removed: bool)
        requires
            old(self).wf(),
        ensures
            final(self).wf(),
            match ban_keys(old(self).entries()).index_of_first(ip@) {
                Some(i) => removed && final(self).entries() == old(self).entries().remove(i),
                None => !removed && final(self).entries() == old(self).entries(),
            },
    {
        let ghost before = self.entries();
        proof { ban_keys(before).index_of_first_ensures(ip@); }
        match self.position(ip) {
            Some(i) => {
                proof {
                    assert(ban_keys(before)[i as int] == ip@);
                    let k = ban_keys(before).index_of_first(ip@)->0;
                    self.lemma_unique(i as int, k);
                }
                self.remove_at(i);
                true
            },
            None => {
                proof {
                    if ban_keys(before).contains(ip@) {
                        let k = ban_keys(before).index_of_first(ip@)->0;
                        assert(before[k].0@ == ip@);
                    }
                }
                false
            },
        }
    }

    /// Whether `ip` is banned at `now` (Unix nanoseconds): a record whose
    /// ban is in force bans; a record whose ban ran out is removed and does
    /// not; no record does not.
    pub fn is_banned(&mut self, ip: &str, now: u64) -> (banned: bool)
        requires
            old(self).wf(),
        ensures
            final(self).wf(),
            match ban_keys(old(self).entries()).index_of_first(ip@) {
                Some(i) => {
                    let st = ban_state_spec(ban_entry_view(Some(&old(self).entries()[i].1.ban)), now as int);
                    &&& banned == (st == BanState::Banned)
                    &&& final(self).entries() == if st == BanState::Expired {
                        old(self).entries().remove(i)
                    } else {
                        old(self).entries()
                    }
                },
                None => !banned && final(self).entries() == old(self).entries(),
            },
    {
        let ghost before = self.entries();
        proof { ban_keys(before).index_of_first_ensures(ip@); }
        match self.position(ip) {
            Some(i) => {
                proof {
                    assert(ban_keys(before)[i as int] == ip@);
                    let k = ban_keys(before).index_of_first(ip@)->0;
                    self.lemma_unique(i as int, k);
                }
                let st = ban_state(Some(&self.entries[i].1.ban), now);
                match st {
                    BanState::Expired => {
                        self.remove_at(i);
                        false
                    },
                    BanState::Banned => true,
                    BanState::NotBanned => false,
                }
            },
            None => {
                proof {
                    if ban_keys(before).contains(ip@) {
                        let k = ban_keys(before).index_of_first(ip@)->0;
                        assert(before[k].0@ == ip@);
                    }
                }
                false
            },
        }
    }

    /// Whether `ip`'s record marks a temporary ban.
    pub fn is_temporary_banned(&self, ip: &str) -> (b: bool)
        requires
            self.wf(),
        ensures
            b == (exists|i: int| 0 <= i < self.entries().len() && self.entries()[i].0@ == ip@
                && #[trigger] self.entries()[i].1.ban.expire == ExpireValue::Flag(true)),
    {
        match self.position(ip) {
            Some(i) => {
                let t = self.entries[i].1.ban.expire == ExpireValue::Flag(true);
                proof {
                    if !t {
                        assert forall|j: int| 0 <= j < self.entries().len() && self.entries()[j].0@ == ip@
                            implies self.entries()[j].1.ban.expire != ExpireValue::Flag(true) by {
                            self.lemma_unique(i as int, j);
                        }
                    }
                }
                t
            },
            None => false,
        }
    }
}

/// A ban stored by [`expire_for`] for a number of minutes ends exactly that
/// many minutes after its time, a ban for good never ends, and neither a
/// temporary ban does until it is lifted.
pub proof fn law_ban_lifetime(minutes: Option<u32>, added_at: Seq<char>, now: int)
    requires
        rfc3339_instant(added_at) is Some,
    ensures
        ({
            let (secs, sub) = rfc3339_instant(added_at)->0;
            let expire = match minutes {
                Some(n) => ExpireValue::Minutes(n as u64),
                None => ExpireValue::Null,
            };
            let state = ban_state_spec(Some((expire, Some(added_at))), now);
            &&& minutes is None ==> state == BanState::Banned
            &&& minutes matches Some(n) ==> (state == BanState::Expired
                <==> now >= secs * 1_000_000_000 + sub + n * nanos_per_minute())
            &&& ban_state_spec(Some((ExpireValue::Flag(true), Some(added_at))), now) == BanState::Banned
        }),
{
}

// ----------------------------------------------------------------- logs

/// The request ids of a log, in order.
pub open spec fn log_ids<T>(logs: Seq<(Option<String>, T)>) -> Seq<Option<Seq<char>>> {
    logs.map_values(|e: (Option<String>, T)| match e.0 {
        Some(s) => Some(s@),
        None => None,
    })
}

/// The first index whose request id is `rid`.
pub open spec fn first_with_id(ids: Seq<Option<Seq<char>>>, rid: Seq<char>) -> Option<int>
    decreases ids.len(),
{
    if ids.len() == 0 {
        None
    } else if ids[0] == Some(rid) {
        Some(0)
    } else {
        match first_with_id(ids.drop_first(), rid) {
            Some(i) => Some(i + 1),
            None => None,
        }
    }
}

/// Facts about [`first_with_id`].
pub proof fn lemma_first_with_id(ids: Seq<Option<Seq<char>>>, rid: Seq<char>)
    ensures
        match first_with_id(ids, rid) {
            Some(i) => 0 <= i < ids.len() && ids[i] == Some(rid),
            None => forall|j: int| 0 <= j < ids.len() ==> ids[j] != Some(rid),
        },
    decreases ids.len(),
{
    if ids.len() > 0 {
        lemma_first_with_id(ids.drop_first(), rid);
        assert forall|j: int| 0 < j < ids.len() implies #[trigger] ids[j] == ids.drop_first()[j - 1] by {}
    }
}

/// Adds a log entry with request id `rid`: it replaces the first entry with
/// the same request id, or comes last (always last without an id).
pub fn upsert_log<T>(logs: &mut Vec<(Option<String>, T)>, rid: Option<String>, entry: T)
    ensures
        ({
            let ids = log_ids(old(logs)@);
            let item = (rid, entry);
            match rid {
                Some(r) => match first_with_id(ids, r@) {
                    Some(i) => final(logs)@ == old(logs)@.update(i, item),
                    None => final(logs)@ == old(logs)@.push(item),
                },
                None => final(logs)@ == old(logs)@.push(item),
            }
        }),
{
    match &rid {
        Some(r) => {
            let wanted = chars_of(r.as_str());
            let ghost ids = log_ids(logs@);
            proof {
                lemma_first_with_id(ids, r@);
            }
            let mut i: usize = 0;
            while i < logs.len()
                invariant
                    i <= logs@.len(),
                    logs@ == old(logs)@,
                    rid matches Some(rr) && rr@ == r@,
                    ids == log_ids(logs@),
                    wanted@ == r@,
                    forall|j: int| 0 <= j < i ==> ids[j] != Some(r@),
                    match first_with_id(ids, r@) {
                        Some(k) => 0 <= k < ids.len() && ids[k] == Some(r@),
                        None => forall|j: int| 0 <= j < ids.len() ==> ids[j] != Some(r@),
                    },
                decreases logs.len() - i,
            {
                let same = match &logs[i].0 {
                    Some(s) => {
                        let sc = chars_of(s.as_str());
                        vec_eq(&sc, &wanted)
                    },
                    None => false,
                };
                assert(same == (ids[i as int] == Some(r@)));
                if same {
                    proof {
                        assert(ids[i as int] == Some(r@));
                        lemma_first_is_least(ids, r@, i as int);
                    }
                    let ghost item = (rid, entry);
                    logs.set(i, (rid, entry));
                    assert(logs@ == old(logs)@.update(i as int, item));
                    return;
                }
                i = i + 1;
            }
            logs.push((rid, entry));
        },
        None => {
            logs.push((rid, entry));
        },
    }
}

/// The first index with an id is the one before which no entry has it.
proof fn lemma_first_is_least(ids: Seq<Option<Seq<char>>>, rid: Seq<char>, i: int)
    requires
        0 <= i < ids.len(),
        ids[i] == Some(rid),
        forall|j: int| 0 <= j < i ==> ids[j] != Some(rid),
    ensures
        first_with_id(ids, rid) == Some(i),
    decreases i,
{
    if i > 0 {
        assert forall|j: int| 0 <= j < i - 1 implies ids.drop_first()[j] != Some(rid) by {
            assert(ids.drop_first()[j] == ids[j + 1]);
        }
        lemma_first_is_least(ids.drop_first(), rid, i - 1);
    }
}

} // verus!
