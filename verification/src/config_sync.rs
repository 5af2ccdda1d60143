//! Configuration pushed from the primary to the other nodes: applying an
//! update to the settings and keeping track of the acknowledgements.
use vstd::prelude::*;
use dashmap::DashMap;
use crate::cluster::ConfigSyncResponse;
use crate::json::{json_error, json_object_member, json_str_member, json_u64_member, json_parse_error,
    member_views, object_member, str_member, u64_member};
use crate::proxy::pairs_view;
use crate::settings::Settings;
use crate::text::{concat_text, owned_text, str_eq};

verus! {

/// A configuration change sent by a node. The time is Unix seconds.
#[derive(Debug, Clone)]
pub struct ConfigUpdate {
    pub id: String,
    pub update_type: String,
    pub payload: String,
    pub timestamp: i64,
    pub source_node_id: String,
}

/// Whether and when a node acknowledged an update (Unix seconds).
#[derive(Debug, Clone)]
pub struct ConfigUpdateAck {
    pub update_id: String,
    pub node_id: String,
    pub acknowledged: bool,
    pub acknowledged_at: Option<i64>,
    pub retry_count: u8,
}

/// The contents of an acknowledgement.
pub struct AckView {
    pub update_id: Seq<char>,
    pub node_id: Seq<char>,
    pub acknowledged: bool,
    pub acknowledged_at: Option<i64>,
    pub retry_count: u8,
}

/// The contents of an acknowledgement.
pub open spec fn ack_view(a: ConfigUpdateAck) -> AckView {
    AckView {
        update_id: a.update_id@,
        node_id: a.node_id@,
        acknowledged: a.acknowledged,
        acknowledged_at: a.acknowledged_at,
        retry_count: a.retry_count,
    }
}

impl ConfigUpdateAck {
    /// An acknowledgement not given yet.
    pub fn new(update_id: String, node_id: String) -> (a: Self)
        ensures
            a.update_id == update_id,
            a.node_id == node_id,
            !a.acknowledged,
            a.acknowledged_at is None,
            a.retry_count == 0,
    {
        ConfigUpdateAck { update_id, node_id, acknowledged: false, acknowledged_at: None, retry_count: 0 }
    }
}

/// The concurrent map of acknowledgements by update id.
pub type AckTable = DashMap<String, ConfigUpdateAck>;

/// The acknowledgements held by a concurrent map, by update id.
pub uninterp spec fn ack_table(m: AckTable) -> Map<Seq<char>, AckView>;

/// An empty map (`DashMap::new`).
#[verifier::external_body]
fn acks_new() -> (fresh: AckTable)
    ensures
        ack_table(fresh).dom() == Set::<Seq<char>>::empty(),
{
    DashMap::new()
}

/// Stores an acknowledgement, replacing any (`DashMap::insert`).
#[verifier::external_body]
fn acks_insert(m: &mut AckTable, k: String, v: ConfigUpdateAck)
    ensures
        ack_table(*final(m)) == ack_table(*old(m)).insert(k@, ack_view(v)),
{
    m.insert(k, v);
}

/// The number of acknowledgements (`DashMap::len`).
#[verifier::external_body]
fn acks_len(m: &AckTable) -> (n: usize)
    ensures
        n == ack_table(*m).dom().len(),
{
    m.len()
}

/// A copy of the acknowledgement of an update (`DashMap::get`).
#[verifier::external_body]
fn acks_get(m: &AckTable, k: &str) -> (r: Option<ConfigUpdateAck>)
    ensures
        match r {
            Some(v) => ack_table(*m).dom().contains(k@) && ack_view(v) == ack_table(*m)[k@],
            None => !ack_table(*m).dom().contains(k@),
        },
{
    m.get(k).map(|e| e.value().clone())
}

/// Every update id and its acknowledgement, each once, in no particular
/// order (`DashMap::iter`).
#[verifier::external_body]
fn acks_entries(m: &AckTable) -> (v: Vec<(String, ConfigUpdateAck)>)
    ensures
        forall|i: int| 0 <= i < v@.len() ==> ack_table(*m).dom().contains(#[trigger] v@[i].0@)
            && ack_view(v@[i].1) == ack_table(*m)[v@[i].0@],
        forall|i: int, j: int| 0 <= i < j < v@.len() ==> v@[i].0@ != v@[j].0@,
        forall|k: Seq<char>| ack_table(*m).dom().contains(k) ==> exists|i: int| 0 <= i < v@.len() && #[trigger] v@[i].0@ == k,
{
    m.iter().map(|e| (e.key().clone(), e.value().clone())).collect()
}

/// The string members of an object, in order; the others are skipped.
pub open spec fn string_members(m: Seq<(Seq<char>, Option<Seq<char>>)>) -> Seq<(Seq<char>, Seq<char>)>
    decreases m.len(),
{
    if m.len() == 0 {
        Seq::empty()
    } else {
        let rest = string_members(m.drop_last());
        match m.last().1 {
            Some(s) => rest.push((m.last().0, s)),
            None => rest,
        }
    }
}

/// The update types that need no local change.
pub open spec fn passive_type(t: Seq<char>) -> bool {
    t == "rules"@ || t == "blacklist"@ || t == "ratelimit"@
}

/// Why an update cannot be applied, if it cannot: an unknown type, or a
/// settings payload that is not JSON.
pub open spec fn update_error(update_type: Seq<char>, payload: Seq<char>) -> Option<Seq<char>> {
    if passive_type(update_type) {
        None
    } else if update_type == "settings"@ {
        match json_error(payload) {
            Some(e) => Some("Invalid settings JSON: "@ + e),
            None => None,
        }
    } else {
        Some("Unknown config update type: "@ + update_type)
    }
}

/// The settings after a settings payload: the port (cut to 16 bits), the
/// proxy map (its string entries) and the dashboard path, where given.
pub open spec fn settings_applied(o: Settings, n: Settings, payload: Seq<char>) -> bool {
    &&& n.waf_port == match json_u64_member(payload, "waf_port"@) { Some(p) => p as u16, None => o.waf_port }
    &&& pairs_view(n.proxy_map@) == match json_object_member(payload, "proxy_map"@) {
        Some(m) => string_members(m),
        None => pairs_view(o.proxy_map@),
    }
    &&& n.dashboard_path@ == match json_str_member(payload, "dashboard_path"@) { Some(p) => p, None => o.dashboard_path@ }
    &&& n == Settings { waf_port: n.waf_port, proxy_map: n.proxy_map, dashboard_path: n.dashboard_path, ..o }
}

fn string_entries(m: Vec<(String, Option<String>)>) -> (r: Vec<(String, String)>)
    ensures
        pairs_view(r@) == string_members(member_views(m@)),
{
    let mut r: Vec<(String, String)> = Vec::new();
    let mut i: usize = 0;
    assert(member_views(m@).take(0) =~= Seq::<(Seq<char>, Option<Seq<char>>)>::empty());
    while i < m.len()
        invariant
            i <= m@.len(),
            pairs_view(r@) == string_members(member_views(m@).take(i as int)),
        decreases m@.len() - i,
    {
        let ghost before = pairs_view(r@);
        assert(member_views(m@).take(i + 1).drop_last() =~= member_views(m@).take(i as int));
        match &m[i].1 {
            Some(s) => {
                r.push((m[i].0.clone(), s.clone()));
                assert(pairs_view(r@) =~= before.push((m@[i as int].0@, s@)));
            },
            None => {},
        }
        i = i + 1;
    }
    assert(member_views(m@).take(m@.len() as int) =~= member_views(m@));
    r
}

/// Applies an update to the settings: `rules`, `blacklist` and `ratelimit`
/// need nothing here; `settings` takes the port, proxy map and dashboard
/// path from its JSON payload; any other type is refused.
pub fn apply_config_update(update: &ConfigUpdate, settings: &mut Settings) -> (r: Result<(), String>)
    ensures
        match update_error(update.update_type@, update.payload@) {
            Some(e) => r matches Err(m) && m@ == e && *final(settings) == *old(settings),
            None => r is Ok && if update.update_type@ == "settings"@ {
                settings_applied(*old(settings), *final(settings), update.payload@)
            } else {
                *final(settings) == *old(settings)
            },
        },
{
    proof {
        reveal_strlit("rules");
        reveal_strlit("blacklist");
        reveal_strlit("ratelimit");
        reveal_strlit("settings");
        assert("rules"@[0] != "settings"@[0]);
        assert("blacklist"@[0] != "settings"@[0]);
        assert("ratelimit"@[0] != "settings"@[0]);
    }
    let t = update.update_type.as_str();
    if str_eq(t, "rules") || str_eq(t, "blacklist") || str_eq(t, "ratelimit") {
        return Ok(());
    }
    if str_eq(t, "settings") {
        let payload = update.payload.as_str();
        if let Some(e) = json_parse_error(payload) {
            return Err(concat_text("Invalid settings JSON: ", e.as_str()));
        }
        if let Some(port) = u64_member(payload, "waf_port") {
            let p: u16 = #[verifier::truncate] (port as u16);
            settings.waf_port = p;
        }
        if let Some(m) = object_member(payload, "proxy_map") {
            settings.proxy_map = string_entries(m);
        }
        if let Some(path) = str_member(payload, "dashboard_path") {
            settings.dashboard_path = path;
        }
        return Ok(());
    }
    Err(concat_text("Unknown config update type: ", t))
}

/// Whether applying an update of this type changes the settings, which are
/// then to be saved.
pub fn changes_settings(update_type: &str) -> (b: bool)
    ensures
        b == (update_type@ == "settings"@),
{
    str_eq(update_type, "settings")
}

/// The acknowledgement of `update_id` after node `node_id` answered at
/// `now`: an existing one gets the answer and time, else a new one is made.
pub open spec fn acked(t: Map<Seq<char>, AckView>, update_id: Seq<char>, node_id: Seq<char>, success: bool, now: i64) -> AckView {
    if t.dom().contains(update_id) {
        AckView { acknowledged: success, acknowledged_at: Some(now), ..t[update_id] }
    } else {
        AckView { update_id: update_id, node_id: node_id, acknowledged: success, acknowledged_at: Some(now), retry_count: 0 }
    }
}

/// `ks` lists, each once, the updates whose acknowledged flag is `flag`.
pub open spec fn lists_acks(ks: Seq<Seq<char>>, t: Map<Seq<char>, AckView>, flag: bool) -> bool {
    &&& ks.no_duplicates()
    &&& forall|i: int| 0 <= i < ks.len() ==> t.dom().contains(#[trigger] ks[i]) && t[ks[i]].acknowledged == flag
    &&& forall|k: Seq<char>| t.dom().contains(k) && t[k].acknowledged == flag ==> #[trigger] ks.contains(k)
}

/// The acknowledgements, behind the concurrent map that only this module reaches.
pub struct AckStore {
    map: AckTable,
}

impl AckStore {
    /// What the map holds.
    pub closed spec fn contents(&self) -> Map<Seq<char>, AckView> {
        ack_table(self.map)
    }

    /// The number of entries.
    pub fn len(&self) -> (n: usize)
        ensures
            n == self.contents().dom().len(),
    {
        acks_len(&self.map)
    }

    /// A copy of the acknowledgement of update `id`.
    pub fn get(&self, id: &str) -> (r: Option<ConfigUpdateAck>)
        ensures
            match r {
                Some(v) => self.contents().dom().contains(id@) && ack_view(v) == self.contents()[id@],
                None => !self.contents().dom().contains(id@),
            },
    {
        acks_get(&self.map, id)
    }
}

/// Applies configuration updates on this node and records the answers.
pub struct ConfigSync {
    pub node_id: String,
    pub pending_acks: AckStore,
}

impl ConfigSync {
    /// The acknowledgements by update id.
    pub open spec fn acks(&self) -> Map<Seq<char>, AckView> {
        self.pending_acks.contents()
    }

    /// Synchronisation for node `node_id`, with nothing acknowledged.
    pub fn new(node_id: String) -> (s: Self)
        ensures
            s.node_id == node_id,
            s.acks().dom() == Set::<Seq<char>>::empty(),
    {
        ConfigSync { node_id, pending_acks: AckStore { map: acks_new() } }
    }

    /// Records node `node_id`'s answer to `update_id` at `now`.
    pub fn send_ack(&mut self, update_id: String, node_id: String, success: bool, now: i64)
        ensures
            final(self).acks() == old(self).acks().insert(update_id@, acked(old(self).acks(), update_id@, node_id@, success, now)),
            final(self).node_id == old(self).node_id,
    {
        let ack = match acks_get(&self.pending_acks.map, update_id.as_str()) {
            Some(a) => ConfigUpdateAck {
                update_id: a.update_id,
                node_id: a.node_id,
                acknowledged: success,
                acknowledged_at: Some(now),
                retry_count: a.retry_count,
            },
            None => ConfigUpdateAck {
                update_id: update_id.clone(),
                node_id,
                acknowledged: success,
                acknowledged_at: Some(now),
                retry_count: 0,
            },
        };
        acks_insert(&mut self.pending_acks.map, update_id, ack);
    }

    /// Applies an update to `settings` and acknowledges it at `now`: applied,
    /// the answer is a success response; refused, the answer is an error
    /// naming why.
    pub fn receive_config_update(&mut self, update: &ConfigUpdate, settings: &mut Settings, now: i64) -> (r: Result<ConfigSyncResponse, String>)
        ensures
            match update_error(update.update_type@, update.payload@) {
                Some(e) => r matches Err(m) && m@ == "Failed to apply config update: "@ + e
                    && *final(settings) == *old(settings),
                None => r matches Ok(resp) && resp.status@ == "success"@
                    && resp.message@ == "Config update applied successfully"@
                    && resp.update_id@ == update.id@
                    && if update.update_type@ == "settings"@ {
                        settings_applied(*old(settings), *final(settings), update.payload@)
                    } else {
                        *final(settings) == *old(settings)
                    },
            },
            final(self).acks() == old(self).acks().insert(update.id@, acked(old(self).acks(), update.id@, old(self).node_id@,
                update_error(update.update_type@, update.payload@) is None, now)),
            final(self).node_id == old(self).node_id,
    {
        match apply_config_update(update, settings) {
            Ok(()) => {
                let node = self.node_id.clone();
                self.send_ack(update.id.clone(), node, true, now);
                Ok(ConfigSyncResponse {
                    status: owned_text("success"),
                    message: owned_text("Config update applied successfully"),
                    update_id: update.id.clone(),
                })
            },
            Err(e) => {
                let node = self.node_id.clone();
                self.send_ack(update.id.clone(), node, false, now);
                Err(concat_text("Failed to apply config update: ", e.as_str()))
            },
        }
    }

    fn count_acks(&self, flag: bool) -> (n: usize)
        ensures
            exists|ks: Seq<Seq<char>>| #[trigger] lists_acks(ks, self.acks(), flag) && ks.len() == n,
    {
        let entries = acks_entries(&self.pending_acks.map);
        let ghost t = self.acks();
        let mut n: usize = 0;
        let ghost mut ks: Seq<Seq<char>> = Seq::empty();
        let mut i: usize = 0;
        while i < entries.len()
            invariant
                i <= entries@.len(),
                t == self.acks(),
                forall|x: int| 0 <= x < entries@.len() ==> t.dom().contains(#[trigger] entries@[x].0@)
                    && ack_view(entries@[x].1) == t[entries@[x].0@],
                forall|x: int, y: int| 0 <= x < y < entries@.len() ==> entries@[x].0@ != entries@[y].0@,
                n == ks.len(),
                n <= i,
                ks.no_duplicates(),
                forall|x: int| 0 <= x < ks.len() ==> t.dom().contains(#[trigger] ks[x]) && t[ks[x]].acknowledged == flag,
                forall|k: Seq<char>| ks.contains(k) <==> (exists|j: int| 0 <= j < i && #[trigger] entries@[j].0@ == k && t[k].acknowledged == flag),
            decreases entries@.len() - i,
        {
            let ghost key = entries@[i as int].0@;
            let ghost old_ks = ks;
            proof {
                assert(t.dom().contains(key));
                assert(!old_ks.contains(key)) by {
                    if old_ks.contains(key) {
                        let j = choose|j: int| 0 <= j < i && #[trigger] entries@[j].0@ == key && t[key].acknowledged == flag;
                        assert(entries@[j].0@ != entries@[i as int].0@);
                    }
                }
            }
            if entries[i].1.acknowledged == flag {
                n = n + 1;
                proof {
                    ks = ks.push(key);
                    assert forall|x: int| 0 <= x < ks.len() implies t.dom().contains(#[trigger] ks[x]) && t[ks[x]].acknowledged == flag by {
                        if x < old_ks.len() {
                            assert(ks[x] == old_ks[x]);
                        }
                    }
                    assert forall|k: Seq<char>| ks.contains(k) <==> (exists|j: int| 0 <= j < i + 1 && #[trigger] entries@[j].0@ == k && t[k].acknowledged == flag) by {
                        if ks.contains(k) && k != key {
                            let x = choose|x: int| 0 <= x < ks.len() && ks[x] == k;
                            assert(x < old_ks.len());
                            assert(old_ks[x] == k);
                            assert(old_ks.contains(k));
                        }
                        if k == key {
                            assert(entries@[i as int].0@ == k);
                            assert(ks[ks.len() - 1] == k);
                        }
                        if exists|j: int| 0 <= j < i + 1 && #[trigger] entries@[j].0@ == k && t[k].acknowledged == flag {
                            if k != key {
                                let j = choose|j: int| 0 <= j < i + 1 && #[trigger] entries@[j].0@ == k && t[k].acknowledged == flag;
                                assert(j < i);
                                assert(old_ks.contains(k));
                                let x = choose|x: int| 0 <= x < old_ks.len() && old_ks[x] == k;
                                assert(ks[x] == k);
                            }
                        }
                    }
                }
            } else {
                proof {
                    assert forall|k: Seq<char>| ks.contains(k) <==> (exists|j: int| 0 <= j < i + 1 && #[trigger] entries@[j].0@ == k && t[k].acknowledged == flag) by {
                        if exists|j: int| 0 <= j < i + 1 && #[trigger] entries@[j].0@ == k && t[k].acknowledged == flag {
                            let j = choose|j: int| 0 <= j < i + 1 && #[trigger] entries@[j].0@ == k && t[k].acknowledged == flag;
                            if j == i {
                                assert(t[key].acknowledged != flag);
                            }
                        }
                    }
                }
            }
            i = i + 1;
        }
        proof {
            assert forall|k: Seq<char>| t.dom().contains(k) && t[k].acknowledged == flag implies #[trigger] ks.contains(k) by {
                let j = choose|j: int| 0 <= j < entries@.len() && #[trigger] entries@[j].0@ == k;
                assert(entries@[j].0@ == k);
            }
            assert(lists_acks(ks, t, flag));
        }
        n
    }

    /// The number of updates not acknowledged.
    pub fn get_pending_ack_count(&self) -> (n: usize)
        ensures
            exists|ks: Seq<Seq<char>>| #[trigger] lists_acks(ks, self.acks(), false) && ks.len() == n,
    {
        self.count_acks(false)
    }

    /// The number of updates acknowledged.
    pub fn get_acknowledged_count(&self) -> (n: usize)
        ensures
            exists|ks: Seq<Seq<char>>| #[trigger] lists_acks(ks, self.acks(), true) && ks.len() == n,
    {
        self.count_acks(true)
    }
}

/// Every recorded update is either pending or acknowledged: the two counts
/// add up to the number of updates recorded.
pub proof fn law_ack_counts_partition(pending: Seq<Seq<char>>, acked: Seq<Seq<char>>, t: Map<Seq<char>, AckView>)
    requires
        lists_acks(pending, t, false),
        lists_acks(acked, t, true),
    ensures
        t.dom().finite(),
        pending.len() + acked.len() == t.dom().len(),
{
    let all = pending + acked;
    assert(all.no_duplicates()) by {
        assert forall|i: int, j: int| 0 <= i < all.len() && 0 <= j < all.len() && i != j implies all[i] != all[j] by {
            if i < pending.len() && j < pending.len() {
            } else if i >= pending.len() && j >= pending.len() {
                assert(all[i] == acked[i - pending.len()]);
                assert(all[j] == acked[j - pending.len()]);
            } else if i < pending.len() {
                assert(t[pending[i]].acknowledged == false);
                assert(t[acked[j - pending.len()]].acknowledged == true);
            } else {
                assert(t[acked[i - pending.len()]].acknowledged == true);
                assert(t[pending[j]].acknowledged == false);
            }
        }
    }
    assert(all.to_set() =~= t.dom()) by {
        assert forall|k: Seq<char>| t.dom().contains(k) implies all.to_set().contains(k) by {
            if t[k].acknowledged {
                assert(acked.contains(k));
                let x = choose|x: int| 0 <= x < acked.len() && acked[x] == k;
                assert(all[pending.len() + x] == k);
            } else {
                assert(pending.contains(k));
                let x = choose|x: int| 0 <= x < pending.len() && pending[x] == k;
                assert(all[x] == k);
            }
        }
        assert forall|k: Seq<char>| all.to_set().contains(k) implies t.dom().contains(k) by {
            let x = choose|x: int| 0 <= x < all.len() && all[x] == k;
            if x < pending.len() {
                assert(t.dom().contains(pending[x]));
            } else {
                assert(t.dom().contains(acked[x - pending.len()]));
            }
        }
    }
    all.unique_seq_to_set();
    vstd::seq_lib::seq_to_set_is_finite(all);
}

/// Updates of type `rules`, `blacklist` or `ratelimit` are accepted whatever
/// their payload and need no local change; a `settings` update is refused
/// only for a payload that is not JSON; every other type is refused as
/// unknown, with its name in the message.
pub proof fn law_update_types(update_type: Seq<char>, payload: Seq<char>)
    ensures
        update_type == "rules"@ || update_type == "blacklist"@ || update_type == "ratelimit"@
            ==> update_error(update_type, payload) is None,
        update_type == "settings"@ ==> (update_error(update_type, payload) is None <==> json_error(payload) is None),
        !(update_type == "rules"@ || update_type == "blacklist"@ || update_type == "ratelimit"@
            || update_type == "settings"@) ==> update_error(update_type, payload)
            == Some("Unknown config update type: "@ + update_type),
{
    reveal_strlit("rules");
    reveal_strlit("blacklist");
    reveal_strlit("ratelimit");
    reveal_strlit("settings");
    assert("rules"@[0] != "settings"@[0]);
    assert("blacklist"@[0] != "settings"@[0]);
    assert("ratelimit"@[0] != "settings"@[0]);
}

} // verus!
