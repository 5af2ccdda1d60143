//! Cluster membership: the node table kept in a concurrent map, node
//! registration and heartbeats, dead-node detection, primary election and
//! fail-over, and the answer to a configuration push.
//!
//! Clocks are read by the caller (Unix seconds); sockets and timers are the
//! caller's too.
use vstd::prelude::*;
use dashmap::DashMap;
use crate::text::{chars_of, string_from_chars, vec_eq, str_eq, owned_text, append_chars, push_decimal, push_signed_decimal, decimal, signed_decimal, matches_at, split_char, split_spec};
use crate::models::role_name;
use crate::settings::starts_with;
use crate::models::{ClusterNode, ClusterRole};
use crate::clock::random_uuid_string;

verus! {

/// The state of the cluster as this node sees it.
#[derive(Debug, Clone, Copy, PartialEq, Eq, Structural)]
pub enum ClusterStatus {
    Initializing,
    Running,
    Degraded,
    Stopped,
}

/// The lowercase name of a cluster state.
pub open spec fn status_name(s: ClusterStatus) -> Seq<char> {
    match s {
        ClusterStatus::Initializing => "initializing"@,
        ClusterStatus::Running => "running"@,
        ClusterStatus::Degraded => "degraded"@,
        ClusterStatus::Stopped => "stopped"@,
    }
}

impl ClusterStatus {
    /// The lowercase name of the state.
    pub fn to_string(&self) -> (s: String)
        ensures
            s@ == status_name(*self),
    {
        let name = match self {
            ClusterStatus::Initializing => "initializing",
            ClusterStatus::Running => "running",
            ClusterStatus::Degraded => "degraded",
            ClusterStatus::Stopped => "stopped",
        };
        string_from_chars(chars_of(name).as_slice())
    }
}

/// A node's answer to a configuration update.
#[derive(Debug, Clone)]
pub struct ConfigSyncResponse {
    pub status: String,
    pub message: String,
    pub update_id: String,
}

/// `dashmap::DashMap`, the concurrent map holding the node table.
#[verifier::external_type_specification]
#[verifier::external_body]
#[verifier::reject_recursive_types(K)]
#[verifier::reject_recursive_types(V)]
#[verifier::reject_recursive_types(S)]
pub struct ExDashMap<K, V, S>(dashmap::DashMap<K, V, S>);

/// Seconds without a heartbeat after which a node counts as dead.
pub const DEAD_NODE_THRESHOLD_SECS: i64 = 30;

/// A member as the table keeps it: the node, when it was last heard from
/// and when it was first seen (Unix seconds).
#[derive(Debug, Clone)]
pub struct NodeRecord {
    pub node: ClusterNode,
    pub last_heartbeat: i64,
    pub startup_time: i64,
}

/// The contents of a node record.
pub struct NodeView {
    pub id: Seq<char>,
    pub role: ClusterRole,
    pub ip: Seq<char>,
    pub status: Seq<char>,
    pub reported_heartbeat: i64,
    pub uptime: u64,
    pub last_heartbeat: i64,
    pub startup_time: i64,
}

/// The contents of a node record.
pub open spec fn record_view(r: NodeRecord) -> NodeView {
    NodeView {
        id: r.node.id@,
        role: r.node.role,
        ip: r.node.ip@,
        status: r.node.status@,
        reported_heartbeat: r.node.last_heartbeat,
        uptime: r.node.uptime_seconds,
        last_heartbeat: r.last_heartbeat,
        startup_time: r.startup_time,
    }
}

/// The concurrent map of node records by node id.
pub type NodeTable = DashMap<String, NodeRecord>;

/// The node table held by a concurrent map: node records by node id.
pub uninterp spec fn node_table(m: NodeTable) -> Map<Seq<char>, NodeView>;

/// An empty table (`DashMap::new`).
#[verifier::external_body]
fn table_new() -> (fresh: NodeTable)
    ensures
        node_table(fresh).dom() == Set::<Seq<char>>::empty(),
{
    DashMap::new()
}

/// Stores a record under a node id, replacing any (`DashMap::insert`).
#[verifier::external_body]
fn table_insert(m: &mut NodeTable, k: String, v: NodeRecord)
    ensures
        node_table(*final(m)) == node_table(*old(m)).insert(k@, record_view(v)),
{
    m.insert(k, v);
}

/// Removes the record of a node id; says whether there was one (`DashMap::remove`).
#[verifier::external_body]
fn table_remove(m: &mut NodeTable, k: &str) -> (r: bool)
    ensures
        r == node_table(*old(m)).dom().contains(k@),
        node_table(*final(m)) == node_table(*old(m)).remove(k@),
{
    m.remove(k).is_some()
}

/// A copy of the record of a node id (`DashMap::get`).
#[verifier::external_body]
fn table_get(m: &NodeTable, k: &str) -> (r: Option<NodeRecord>)
    ensures
        match r {
            Some(v) => node_table(*m).dom().contains(k@) && record_view(v) == node_table(*m)[k@],
            None => !node_table(*m).dom().contains(k@),
        },
{
    m.get(k).map(|e| e.value().clone())
}

/// `v` lists the table: every id with its record, each id once.
pub open spec fn lists_table(v: Seq<(String, NodeRecord)>, t: Map<Seq<char>, NodeView>) -> bool {
    &&& forall|i: int| 0 <= i < v.len() ==> t.dom().contains(#[trigger] v[i].0@) && record_view(v[i].1) == t[v[i].0@]
    &&& forall|i: int, j: int| 0 <= i < j < v.len() ==> v[i].0@ != v[j].0@
    &&& forall|k: Seq<char>| t.dom().contains(k) ==> exists|i: int| 0 <= i < v.len() && #[trigger] v[i].0@ == k
}

/// Every id and record of the table, each once, in no particular order
/// (`DashMap::iter`).
#[verifier::external_body]
fn table_entries(m: &NodeTable) -> (v: Vec<(String, NodeRecord)>)
    ensures
        lists_table(v@, node_table(*m)),
{
    m.iter().map(|e| (e.key().clone(), e.value().clone())).collect()
}

/// The number of records (`DashMap::len`).
#[verifier::external_body]
fn table_len(m: &NodeTable) -> (n: usize)
    ensures
        n == node_table(*m).dom().len(),
{
    m.len()
}

/// A live candidate for primary: not dead, and primary or secondary; for a
/// fail-over (`secondaries_only`), a secondary that was not just demoted.
pub open spec fn is_candidate(v: NodeView, secondaries_only: bool) -> bool {
    v.status != "dead"@ && if secondaries_only {
        v.role == ClusterRole::Secondary && v.status != "demoted"@
    } else {
        v.role == ClusterRole::Primary || v.role == ClusterRole::Secondary
    }
}

/// A node's record after an election won by `winner`: the winner becomes
/// primary, any other primary becomes secondary.
pub open spec fn after_election(k: Seq<char>, v: NodeView, winner: Seq<char>) -> NodeView {
    if k == winner {
        NodeView { role: ClusterRole::Primary, ..v }
    } else if v.role == ClusterRole::Primary {
        NodeView { role: ClusterRole::Secondary, ..v }
    } else {
        v
    }
}

/// This node's own record when the manager starts.
pub open spec fn own_record(id: Seq<char>, role: ClusterRole, now: i64) -> NodeView {
    NodeView {
        id: id,
        role: role,
        ip: "127.0.0.1"@,
        status: "online"@,
        reported_heartbeat: now,
        uptime: 0,
        last_heartbeat: now,
        startup_time: now,
    }
}

/// Whole seconds from `since` to `now`, cut to 64 unsigned bits as a
/// signed duration cast to `u64` is.
pub open spec fn uptime_between(since: i64, now: i64) -> u64 {
    (now - since) as i64 as u64
}

/// The node records, behind the concurrent map that only this module reaches.
pub struct NodeStore {
    map: NodeTable,
}

impl NodeStore {
    /// What the map holds.
    pub closed spec fn contents(&self) -> Map<Seq<char>, NodeView> {
        node_table(self.map)
    }
}

/// This node's view of the cluster.
pub struct ClusterManager {
    pub node_id: String,
    pub role: ClusterRole,
    pub nodes: NodeStore,
    pub status: ClusterStatus,
    pub start_time: i64,
    pub heartbeat_counter: u64,
}

impl ClusterManager {
    /// The node table.
    pub open spec fn table(&self) -> Map<Seq<char>, NodeView> {
        self.nodes.contents()
    }

    /// A manager for node `node_id` with role `role`, started at `now`: the
    /// table holds this node alone, online at `127.0.0.1`.
    pub fn with_id(node_id: String, role: ClusterRole, now: i64) -> (m: Self)
        ensures
            m.node_id == node_id,
            m.role == role,
            m.table() == Map::<Seq<char>, NodeView>::empty().insert(node_id@, own_record(node_id@, role, now)),
            m.status == ClusterStatus::Initializing,
            m.start_time == now,
            m.heartbeat_counter == 0,
    {
        let mut nodes = table_new();
        let me = ClusterNode {
            id: node_id.clone(),
            role,
            ip: owned_text("127.0.0.1"),
            status: owned_text("online"),
            last_heartbeat: now,
            uptime_seconds: 0,
        };
        table_insert(&mut nodes, node_id.clone(), NodeRecord { node: me, last_heartbeat: now, startup_time: now });
        ClusterManager { node_id, role, nodes: NodeStore { map: nodes }, status: ClusterStatus::Initializing, start_time: now, heartbeat_counter: 0 }
    }

    /// A manager for a fresh random node id.
    pub fn new(role: ClusterRole, now: i64) -> (m: Self)
        ensures
            m.role == role,
            m.table() == Map::<Seq<char>, NodeView>::empty().insert(m.node_id@, own_record(m.node_id@, role, now)),
            m.status == ClusterStatus::Initializing,
    {
        ClusterManager::with_id(random_uuid_string(), role, now)
    }

    /// Records a node that announced itself at `now`: refused for this
    /// node's own id; a known node gets the new details, is heard from now
    /// and keeps its start time; an unknown one is added, started now and
    /// last heard from at the heartbeat it reports.
    pub fn register_node(&mut self, node: ClusterNode, now: i64) -> (accepted: bool)
        ensures
            accepted == (node.id@ != old(self).node_id@),
            !accepted ==> final(self).table() == old(self).table(),
            accepted ==> final(self).table() == old(self).table().insert(node.id@, NodeView {
                id: node.id@,
                role: node.role,
                ip: node.ip@,
                status: node.status@,
                reported_heartbeat: node.last_heartbeat,
                uptime: node.uptime_seconds,
                last_heartbeat: if old(self).table().dom().contains(node.id@) { now } else { node.last_heartbeat },
                startup_time: if old(self).table().dom().contains(node.id@) {
                    old(self).table()[node.id@].startup_time
                } else {
                    now
                },
            }),
            final(self).node_id == old(self).node_id,
            final(self).role == old(self).role,
            final(self).status == old(self).status,
            final(self).start_time == old(self).start_time,
            final(self).heartbeat_counter == old(self).heartbeat_counter,
    {
        if str_eq(node.id.as_str(), self.node_id.as_str()) {
            return false;
        }
        let (heard, startup) = match table_get(&self.nodes.map, node.id.as_str()) {
            Some(r) => (now, r.startup_time),
            None => (node.last_heartbeat, now),
        };
        let key = node.id.clone();
        table_insert(&mut self.nodes.map, key, NodeRecord { node, last_heartbeat: heard, startup_time: startup });
        true
    }

    /// Forgets a node; refused for this node's own id. Says whether a node
    /// was removed.
    pub fn unregister_node(&mut self, node_id: String) -> (removed: bool)
        ensures
            node_id@ == old(self).node_id@ ==> !removed && final(self).table() == old(self).table(),
            node_id@ != old(self).node_id@ ==> removed == old(self).table().dom().contains(node_id@)
                && final(self).table() == old(self).table().remove(node_id@),
            final(self).node_id == old(self).node_id,
            final(self).role == old(self).role,
            final(self).status == old(self).status,
            final(self).start_time == old(self).start_time,
            final(self).heartbeat_counter == old(self).heartbeat_counter,
    {
        if str_eq(node_id.as_str(), self.node_id.as_str()) {
            return false;
        }
        table_remove(&mut self.nodes.map, node_id.as_str())
    }

    /// Takes in a heartbeat of another node at `now`: it is registered as
    /// online with the reported role, address and uptime.
    pub fn receive_heartbeat(&mut self, node_id: String, role: ClusterRole, ip: String, uptime: u64, now: i64)
        ensures
            node_id@ == old(self).node_id@ ==> final(self).table() == old(self).table(),
            node_id@ != old(self).node_id@ ==> final(self).table().dom() == old(self).table().dom().insert(node_id@)
                && final(self).table()[node_id@].role == role
                && final(self).table()[node_id@].status == "online"@
                && final(self).table()[node_id@].uptime == uptime
                && final(self).table()[node_id@].last_heartbeat == now
                && forall|k: Seq<char>| k != node_id@ && old(self).table().dom().contains(k)
                    ==> final(self).table()[k] == old(self).table()[k],
            final(self).node_id == old(self).node_id,
            final(self).status == old(self).status,
    {
        if str_eq(node_id.as_str(), self.node_id.as_str()) {
            return;
        }
        let node = ClusterNode { id: node_id, role, ip, status: owned_text("online"), last_heartbeat: now, uptime_seconds: uptime };
        self.register_node(node, now);
        assert(self.table().dom() =~= old(self).table().dom().insert(node_id@));
    }

    /// Counts a heartbeat of this node at `now`: its record is heard from now
    /// and its uptime is the time since it started.
    pub fn send_heartbeat(&mut self, now: i64)
        ensures
            final(self).heartbeat_counter == (old(self).heartbeat_counter + 1) as u64
                || (old(self).heartbeat_counter == u64::MAX && final(self).heartbeat_counter == 0),
            old(self).table().dom().contains(old(self).node_id@) ==> final(self).table() == old(self).table().insert(
                old(self).node_id@,
                NodeView {
                    last_heartbeat: now,
                    uptime: uptime_between(old(self).table()[old(self).node_id@].startup_time, now),
                    ..old(self).table()[old(self).node_id@]
                },
            ),
            !old(self).table().dom().contains(old(self).node_id@) ==> final(self).table() == old(self).table(),
            final(self).node_id == old(self).node_id,
            final(self).status == old(self).status,
    {
        self.heartbeat_counter = self.heartbeat_counter.wrapping_add(1);
        match table_get(&self.nodes.map, self.node_id.as_str()) {
            Some(r) => {
                let mut r = r;
                r.last_heartbeat = now;
                let d: i128 = now as i128 - r.startup_time as i128;
                #[verifier::truncate]
                let up: u64 = (d as i64) as u64;
                r.node.uptime_seconds = up;
                let key = self.node_id.clone();
                table_insert(&mut self.nodes.map, key, r);
            },
            None => {},
        }
    }
}

/// A node not heard from for more than the dead-node threshold at `now`.
pub open spec fn is_dead_at(v: NodeView, now: i64) -> bool {
    now - v.last_heartbeat > DEAD_NODE_THRESHOLD_SECS
}

/// The ids of the other nodes that are dead at `now`.
pub open spec fn dead_ids(t: Map<Seq<char>, NodeView>, own: Seq<char>, now: i64) -> Set<Seq<char>> {
    Set::new(|k: Seq<char>| t.dom().contains(k) && k != own && is_dead_at(t[k], now))
}

/// `v` lists the members of `s`, each once.
pub open spec fn lists_ids(v: Seq<String>, s: Set<Seq<char>>) -> bool {
    &&& forall|i: int| 0 <= i < v.len() ==> s.contains(#[trigger] v[i]@)
    &&& forall|i: int, j: int| 0 <= i < j < v.len() ==> v[i]@ != v[j]@
    &&& forall|k: Seq<char>| s.contains(k) ==> exists|i: int| 0 <= i < v.len() && #[trigger] v[i]@ == k
}

/// Some node of the table is an online primary.
pub open spec fn has_online_primary(t: Map<Seq<char>, NodeView>) -> bool {
    exists|k: Seq<char>| t.dom().contains(k) && #[trigger] t[k].role == ClusterRole::Primary && t[k].status == "online"@
}

impl ClusterManager {
    /// The ids of the other nodes not heard from for more than the
    /// threshold at `now`, each once.
    pub fn list_dead_nodes(&self, now: i64) -> (dead: Vec<String>)
        ensures
            lists_ids(dead@, dead_ids(self.table(), self.node_id@, now)),
    {
        let entries = table_entries(&self.nodes.map);
        let ghost t = self.table();
        let ghost target = dead_ids(t, self.node_id@, now);
        let mut dead: Vec<String> = Vec::new();
        let ghost mut idx: Seq<int> = Seq::empty();
        let mut i: usize = 0;
        while i < entries.len()
            invariant
                t == self.table(),
                target == dead_ids(t, self.node_id@, now),
                lists_table(entries@, t),
                i <= entries.len(),
                idx.len() == dead@.len(),
                forall|j: int| 0 <= j < idx.len() ==> 0 <= #[trigger] idx[j] < i && dead@[j]@ == entries@[idx[j]].0@
                    && target.contains(dead@[j]@),
                forall|a: int, b: int| 0 <= a < b < idx.len() ==> idx[a] < idx[b],
                forall|l: int| 0 <= l < i && target.contains(#[trigger] entries@[l].0@) ==> exists|j: int| 0 <= j < idx.len() && idx[j] == l,
            decreases entries.len() - i,
        {
            let key = &entries[i].0;
            let rec = &entries[i].1;
            let is_self = str_eq(key.as_str(), self.node_id.as_str());
            let elapsed: i128 = now as i128 - rec.last_heartbeat as i128;
            proof {
                assert(t.dom().contains(entries@[i as int].0@));
                assert(record_view(entries@[i as int].1) == t[entries@[i as int].0@]);
            }
            if !is_self && elapsed > DEAD_NODE_THRESHOLD_SECS as i128 {
                let ghost old_idx = idx;
                dead.push(key.clone());
                proof {
                    idx = idx.push(i as int);
                    assert forall|l: int| 0 <= l < i + 1 && target.contains(#[trigger] entries@[l].0@) implies exists|j: int| 0 <= j < idx.len() && idx[j] == l by {
                        if l == i {
                            assert(idx[idx.len() - 1] == l);
                        } else {
                            let j = choose|j: int| 0 <= j < old_idx.len() && old_idx[j] == l;
                            assert(idx[j] == l);
                        }
                    }
                }
            } else {
                proof {
                    assert(!target.contains(entries@[i as int].0@));
                }
            }
            i = i + 1;
        }
        proof {
            assert forall|j: int| 0 <= j < dead@.len() implies target.contains(#[trigger] dead@[j]@) by {
                assert(0 <= idx[j] < i);
            }
            assert forall|a: int, b: int| 0 <= a < b < dead@.len() implies dead@[a]@ != dead@[b]@ by {
                assert(idx[a] < idx[b]);
                assert(0 <= idx[a] < i && 0 <= idx[b] < i);
            }
            assert forall|k: Seq<char>| target.contains(k) implies exists|j: int| 0 <= j < dead@.len() && #[trigger] dead@[j]@ == k by {
                let l = choose|l: int| 0 <= l < entries@.len() && #[trigger] entries@[l].0@ == k;
                assert(target.contains(entries@[l].0@));
                let j = choose|j: int| 0 <= j < idx.len() && idx[j] == l;
                assert(dead@[j]@ == entries@[idx[j]].0@);
            }
        }
        dead
    }

    /// A copy of the record of node `id`.
    pub fn node_record(&self, id: &str) -> (r: Option<NodeRecord>)
        ensures
            match r {
                Some(rec) => self.table().dom().contains(id@) && record_view(rec) == self.table()[id@],
                None => !self.table().dom().contains(id@),
            },
    {
        table_get(&self.nodes.map, id)
    }

    /// The number of nodes in the table.
    pub fn get_node_count(&self) -> (n: usize)
        ensures
            n == self.table().dom().len(),
    {
        table_len(&self.nodes.map)
    }

    /// Some online primary of the table, if there is one.
    pub fn get_primary_node(&self) -> (p: Option<String>)
        ensures
            match p {
                Some(k) => self.table().dom().contains(k@) && self.table()[k@].role == ClusterRole::Primary
                    && self.table()[k@].status == "online"@,
                None => !has_online_primary(self.table()),
            },
    {
        let entries = table_entries(&self.nodes.map);
        let ghost t = self.table();
        let mut i: usize = 0;
        while i < entries.len()
            invariant
                t == self.table(),
                lists_table(entries@, t),
                i <= entries.len(),
                forall|l: int| 0 <= l < i ==> !(#[trigger] t[entries@[l].0@].role == ClusterRole::Primary
                    && t[entries@[l].0@].status == "online"@),
            decreases entries.len() - i,
        {
            let rec = &entries[i].1;
            proof {
                assert(record_view(entries@[i as int].1) == t[entries@[i as int].0@]);
            }
            if rec.node.role == ClusterRole::Primary && str_eq(rec.node.status.as_str(), "online") {
                return Some(entries[i].0.clone());
            }
            i = i + 1;
        }
        proof {
            if has_online_primary(t) {
                let k = choose|k: Seq<char>| t.dom().contains(k) && #[trigger] t[k].role == ClusterRole::Primary && t[k].status == "online"@;
                let l = choose|l: int| 0 <= l < entries@.len() && #[trigger] entries@[l].0@ == k;
                assert(t[entries@[l].0@].role == ClusterRole::Primary);
            }
        }
        None
    }

    /// This node's configured role.
    pub fn get_role(&self) -> (r: ClusterRole)
        ensures
            r == self.role,
    {
        self.role
    }

    /// The cluster state.
    pub fn get_status(&self) -> (s: ClusterStatus)
        ensures
            s == self.status,
    {
        self.status
    }

    /// Whole seconds since this manager started, at `now`.
    pub fn get_uptime_seconds(&self, now: i64) -> (up: u64)
        ensures
            up == uptime_between(self.start_time, now),
    {
        let d: i128 = now as i128 - self.start_time as i128;
        #[verifier::truncate]
        let up: u64 = (d as i64) as u64;
        up
    }
}

/// The table with the records of `d` marked dead.
pub open spec fn mark_dead(t: Map<Seq<char>, NodeView>, d: Set<Seq<char>>) -> Map<Seq<char>, NodeView> {
    Map::new(|k: Seq<char>| t.dom().contains(k), |k: Seq<char>| if d.contains(k) {
        NodeView { status: "dead"@, ..t[k] }
    } else {
        t[k]
    })
}

/// The ids among the first `n` strings of `v`.
pub open spec fn prefix_ids(v: Seq<String>, n: int) -> Set<Seq<char>> {
    Set::new(|k: Seq<char>| exists|j: int| 0 <= j < n && #[trigger] v[j]@ == k)
}

proof fn lemma_prefix_ids_step(v: Seq<String>, n: int)
    requires
        0 <= n < v.len(),
    ensures
        prefix_ids(v, n + 1) == prefix_ids(v, n).insert(v[n]@),
{
    assert forall|k: Seq<char>| prefix_ids(v, n + 1).contains(k) implies prefix_ids(v, n).insert(v[n]@).contains(k) by {
        let j = choose|j: int| 0 <= j < n + 1 && #[trigger] v[j]@ == k;
        if j < n {
            assert(v[j]@ == k);
        }
    }
    assert forall|k: Seq<char>| prefix_ids(v, n).insert(v[n]@).contains(k) implies prefix_ids(v, n + 1).contains(k) by {
        if k == v[n]@ {
            assert(v[n]@ == k);
        } else {
            let j = choose|j: int| 0 <= j < n && #[trigger] v[j]@ == k;
            assert(v[j]@ == k);
        }
    }
    assert(prefix_ids(v, n + 1) =~= prefix_ids(v, n).insert(v[n]@));
}

proof fn lemma_prefix_ids_all(v: Seq<String>, s: Set<Seq<char>>)
    requires
        lists_ids(v, s),
    ensures
        prefix_ids(v, v.len() as int) == s,
{
    assert forall|k: Seq<char>| prefix_ids(v, v.len() as int).contains(k) implies s.contains(k) by {
        let j = choose|j: int| 0 <= j < v.len() && #[trigger] v[j]@ == k;
        assert(s.contains(v[j]@));
    }
    assert forall|k: Seq<char>| s.contains(k) implies prefix_ids(v, v.len() as int).contains(k) by {
        let j = choose|j: int| 0 <= j < v.len() && #[trigger] v[j]@ == k;
        assert(v[j]@ == k);
    }
    assert(prefix_ids(v, v.len() as int) =~= s);
}

/// Some node of the table other than a dead one is a candidate for primary.
pub open spec fn has_candidate(t: Map<Seq<char>, NodeView>, secondaries_only: bool) -> bool {
    exists|k: Seq<char>| t.dom().contains(k) && #[trigger] is_candidate(t[k], secondaries_only)
}

/// `w` is a candidate with the longest uptime.
pub open spec fn is_best(t: Map<Seq<char>, NodeView>, w: Seq<char>, secondaries_only: bool) -> bool {
    &&& t.dom().contains(w)
    &&& is_candidate(t[w], secondaries_only)
    &&& forall|k: Seq<char>| t.dom().contains(k) && #[trigger] is_candidate(t[k], secondaries_only) ==> t[k].uptime <= t[w].uptime
}

/// The winner of an election over `t` run by node `own`: a candidate with
/// the longest uptime, or `own` itself when there is no candidate.
pub open spec fn election_winner(t: Map<Seq<char>, NodeView>, own: Seq<char>, w: Seq<char>) -> bool {
    &&& has_candidate(t, false) ==> is_best(t, w, false)
    &&& !has_candidate(t, false) ==> w == own
}

/// The table after an election won by `w`.
pub open spec fn elected(t: Map<Seq<char>, NodeView>, w: Seq<char>) -> Map<Seq<char>, NodeView> {
    Map::new(|k: Seq<char>| t.dom().contains(k), |k: Seq<char>| after_election(k, t[k], w))
}

/// The table with the records of `done` already changed by an election won
/// by `w`.
pub open spec fn elected_in(t: Map<Seq<char>, NodeView>, w: Seq<char>, done: Set<Seq<char>>) -> Map<Seq<char>, NodeView> {
    Map::new(|k: Seq<char>| t.dom().contains(k), |k: Seq<char>| if done.contains(k) {
        after_election(k, t[k], w)
    } else {
        t[k]
    })
}

/// The ids among the first `n` entries.
pub open spec fn entry_ids(v: Seq<(String, NodeRecord)>, n: int) -> Set<Seq<char>> {
    Set::new(|k: Seq<char>| exists|j: int| 0 <= j < n && #[trigger] v[j].0@ == k)
}

/// The index of a candidate entry with the longest uptime, the first such.
fn best_candidate(entries: &Vec<(String, NodeRecord)>, secondaries_only: bool) -> (best: Option<usize>)
    ensures
        match best {
            Some(b) => b < entries@.len() && is_candidate(record_view(entries@[b as int].1), secondaries_only)
                && forall|l: int| 0 <= l < entries@.len() && #[trigger] is_candidate(record_view(entries@[l].1), secondaries_only)
                    ==> entries@[l].1.node.uptime_seconds <= entries@[b as int].1.node.uptime_seconds,
            None => forall|l: int| 0 <= l < entries@.len() ==> !#[trigger] is_candidate(record_view(entries@[l].1), secondaries_only),
        },
{
    let mut best: Option<usize> = None;
    let mut i: usize = 0;
    while i < entries.len()
        invariant
            i <= entries@.len(),
            match best {
                Some(b) => b < i && is_candidate(record_view(entries@[b as int].1), secondaries_only)
                    && forall|l: int| 0 <= l < i && #[trigger] is_candidate(record_view(entries@[l].1), secondaries_only)
                        ==> entries@[l].1.node.uptime_seconds <= entries@[b as int].1.node.uptime_seconds,
                None => forall|l: int| 0 <= l < i ==> !#[trigger] is_candidate(record_view(entries@[l].1), secondaries_only),
            },
        decreases entries@.len() - i,
    {
        let rec = &entries[i].1;
        let dead = str_eq(rec.node.status.as_str(), "dead");
        let fits = if secondaries_only {
            rec.node.role == ClusterRole::Secondary && !str_eq(rec.node.status.as_str(), "demoted")
        } else {
            rec.node.role == ClusterRole::Primary || rec.node.role == ClusterRole::Secondary
        };
        if !dead && fits {
            match best {
                Some(b) => {
                    if rec.node.uptime_seconds > entries[b].1.node.uptime_seconds {
                        best = Some(i);
                    }
                },
                None => {
                    best = Some(i);
                },
            }
        }
        i = i + 1;
    }
    best
}

/// The table after a failed-over secondary `w` took over as primary.
pub open spec fn promoted(t: Map<Seq<char>, NodeView>, w: Seq<char>) -> Map<Seq<char>, NodeView> {
    t.insert(w, NodeView { role: ClusterRole::Primary, status: "online"@, ..t[w] })
}

/// The table after primary `id` was demoted.
pub open spec fn demoted(t: Map<Seq<char>, NodeView>, id: Seq<char>) -> Map<Seq<char>, NodeView> {
    t.insert(id, NodeView { role: ClusterRole::Secondary, status: "demoted"@, ..t[id] })
}

impl ClusterManager {
    /// Marks the other nodes dead that were not heard from for more than the
    /// threshold at `now` and returns their ids; with some dead and no online
    /// primary left, the cluster is degraded.
    pub fn detect_dead_nodes(&mut self, now: i64) -> (dead: Vec<String>)
        ensures
            lists_ids(dead@, dead_ids(old(self).table(), old(self).node_id@, now)),
            final(self).table() == mark_dead(old(self).table(), dead_ids(old(self).table(), old(self).node_id@, now)),
            final(self).status == (if dead@.len() > 0 && !has_online_primary(final(self).table()) {
                ClusterStatus::Degraded
            } else {
                old(self).status
            }),
            final(self).node_id == old(self).node_id,
            final(self).role == old(self).role,
            final(self).start_time == old(self).start_time,
            final(self).heartbeat_counter == old(self).heartbeat_counter,
    {
        let dead = self.list_dead_nodes(now);
        let ghost t = self.table();
        let ghost d = dead_ids(t, self.node_id@, now);
        proof {
            assert(mark_dead(t, prefix_ids(dead@, 0)) =~= t);
        }
        let mut i: usize = 0;
        while i < dead.len()
            invariant
                i <= dead@.len(),
                d == dead_ids(t, old(self).node_id@, now),
                lists_ids(dead@, d),
                self.table() == mark_dead(t, prefix_ids(dead@, i as int)),
                self.node_id == old(self).node_id,
                self.role == old(self).role,
                self.status == old(self).status,
                self.start_time == old(self).start_time,
                self.heartbeat_counter == old(self).heartbeat_counter,
            decreases dead@.len() - i,
        {
            let key = &dead[i];
            proof {
                assert(d.contains(dead@[i as int]@));
                if prefix_ids(dead@, i as int).contains(dead@[i as int]@) {
                    let j = choose|j: int| 0 <= j < i && #[trigger] dead@[j]@ == dead@[i as int]@;
                    assert(dead@[j]@ != dead@[i as int]@);
                }
                lemma_prefix_ids_step(dead@, i as int);
            }
            match table_get(&self.nodes.map, key.as_str()) {
                Some(r) => {
                    let mut r = r;
                    r.node.status = owned_text("dead");
                    table_insert(&mut self.nodes.map, key.clone(), r);
                    proof {
                        assert(self.table() =~= mark_dead(t, prefix_ids(dead@, i as int + 1)));
                    }
                },
                None => {},
            }
            i = i + 1;
        }
        proof {
            lemma_prefix_ids_all(dead@, d);
        }
        if dead.len() > 0 {
            if self.get_primary_node().is_none() {
                self.status = ClusterStatus::Degraded;
            }
        }
        dead
    }

    /// Demotes node `node_id` if it is a primary: it becomes a secondary
    /// with status `demoted`. Says whether it did.
    pub fn demote_primary(&mut self, node_id: String) -> (done: bool)
        ensures
            done == (old(self).table().dom().contains(node_id@) && old(self).table()[node_id@].role == ClusterRole::Primary),
            done ==> final(self).table() == demoted(old(self).table(), node_id@),
            !done ==> final(self).table() == old(self).table(),
            final(self).node_id == old(self).node_id,
            final(self).role == old(self).role,
            final(self).status == old(self).status,
            final(self).start_time == old(self).start_time,
            final(self).heartbeat_counter == old(self).heartbeat_counter,
    {
        match table_get(&self.nodes.map, node_id.as_str()) {
            Some(r) => {
                if r.node.role == ClusterRole::Primary {
                    let mut r = r;
                    r.node.role = ClusterRole::Secondary;
                    r.node.status = owned_text("demoted");
                    table_insert(&mut self.nodes.map, node_id, r);
                    true
                } else {
                    false
                }
            },
            None => false,
        }
    }

    /// Applies the outcome of an election won by `w` to every record listed
    /// in `entries`.
    fn apply_election(&mut self, entries: &Vec<(String, NodeRecord)>, w: &String)
        requires
            lists_table(entries@, old(self).table()),
        ensures
            final(self).table() == elected(old(self).table(), w@),
            final(self).node_id == old(self).node_id,
            final(self).role == old(self).role,
            final(self).status == old(self).status,
            final(self).start_time == old(self).start_time,
            final(self).heartbeat_counter == old(self).heartbeat_counter,
    {
        let ghost t = self.table();
        proof {
            assert(elected_in(t, w@, entry_ids(entries@, 0)) =~= t);
        }
        let mut i: usize = 0;
        while i < entries.len()
            invariant
                i <= entries@.len(),
                t == old(self).table(),
                lists_table(entries@, t),
                self.table() == elected_in(t, w@, entry_ids(entries@, i as int)),
                self.node_id == old(self).node_id,
                self.role == old(self).role,
                self.status == old(self).status,
                self.start_time == old(self).start_time,
                self.heartbeat_counter == old(self).heartbeat_counter,
            decreases entries@.len() - i,
        {
            let key = &entries[i].0;
            let ghost k = entries@[i as int].0@;
            let ghost before = entry_ids(entries@, i as int);
            proof {
                assert(t.dom().contains(k));
                if before.contains(k) {
                    let j = choose|j: int| 0 <= j < i && #[trigger] entries@[j].0@ == k;
                    assert(entries@[j].0@ != entries@[i as int].0@);
                }
                assert(entry_ids(entries@, i as int + 1) =~= before.insert(k)) by {
                    assert forall|x: Seq<char>| entry_ids(entries@, i as int + 1).contains(x) implies before.insert(k).contains(x) by {
                        let j = choose|j: int| 0 <= j < i + 1 && #[trigger] entries@[j].0@ == x;
                        if j < i {
                            assert(entries@[j].0@ == x);
                        }
                    }
                    assert forall|x: Seq<char>| before.insert(k).contains(x) implies entry_ids(entries@, i as int + 1).contains(x) by {
                        if x == k {
                            assert(entries@[i as int].0@ == x);
                        } else {
                            let j = choose|j: int| 0 <= j < i && #[trigger] entries@[j].0@ == x;
                            assert(entries@[j].0@ == x);
                        }
                    }
                }
            }
            let is_winner = str_eq(key.as_str(), w.as_str());
            match table_get(&self.nodes.map, key.as_str()) {
                Some(r) => {
                    if is_winner {
                        let mut r = r;
                        r.node.role = ClusterRole::Primary;
                        table_insert(&mut self.nodes.map, key.clone(), r);
                    } else if r.node.role == ClusterRole::Primary {
                        let mut r = r;
                        r.node.role = ClusterRole::Secondary;
                        table_insert(&mut self.nodes.map, key.clone(), r);
                    }
                    proof {
                        assert(self.table() =~= elected_in(t, w@, entry_ids(entries@, i as int + 1)));
                    }
                },
                None => {},
            }
            i = i + 1;
        }
        proof {
            assert(entry_ids(entries@, entries@.len() as int) =~= t.dom()) by {
                assert forall|x: Seq<char>| t.dom().contains(x) implies entry_ids(entries@, entries@.len() as int).contains(x) by {
                    let j = choose|j: int| 0 <= j < entries@.len() && #[trigger] entries@[j].0@ == x;
                    assert(entries@[j].0@ == x);
                }
            }
            assert(self.table() =~= elected(t, w@));
        }
    }

    /// Elects a primary: the live primary or secondary with the longest
    /// uptime, or this node when there is none. The winner becomes primary,
    /// every other primary a secondary, and the cluster runs.
    pub fn elect_primary(&mut self) -> (winner: Option<String>)
        ensures
            winner is Some,
            election_winner(old(self).table(), old(self).node_id@, winner->0@),
            final(self).table() == elected(old(self).table(), winner->0@),
            final(self).status == ClusterStatus::Running,
            final(self).node_id == old(self).node_id,
            final(self).role == old(self).role,
            final(self).start_time == old(self).start_time,
            final(self).heartbeat_counter == old(self).heartbeat_counter,
    {
        let entries = table_entries(&self.nodes.map);
        let ghost t = self.table();
        let w = match best_candidate(&entries, false) {
            Some(b) => {
                proof {
                    assert forall|k: Seq<char>| t.dom().contains(k) && #[trigger] is_candidate(t[k], false)
                        implies t[k].uptime <= t[entries@[b as int].0@].uptime by {
                        let l = choose|l: int| 0 <= l < entries@.len() && #[trigger] entries@[l].0@ == k;
                        assert(record_view(entries@[l].1) == t[entries@[l].0@]);
                        assert(is_candidate(record_view(entries@[l].1), false));
                    }
                    assert(record_view(entries@[b as int].1) == t[entries@[b as int].0@]);
                }
                entries[b].0.clone()
            },
            None => {
                proof {
                    if has_candidate(t, false) {
                        let k = choose|k: Seq<char>| t.dom().contains(k) && #[trigger] is_candidate(t[k], false);
                        let l = choose|l: int| 0 <= l < entries@.len() && #[trigger] entries@[l].0@ == k;
                        assert(record_view(entries@[l].1) == t[entries@[l].0@]);
                        assert(!is_candidate(record_view(entries@[l].1), false));
                    }
                }
                self.node_id.clone()
            },
        };
        self.apply_election(&entries, &w);
        self.status = ClusterStatus::Running;
        Some(w)
    }

    /// Fails over to the live secondary with the longest uptime (one just
    /// demoted does not count): it becomes an online primary and the cluster
    /// runs. Without such a secondary, a full election is held.
    pub fn promote_secondary(&mut self) -> (winner: Option<String>)
        ensures
            winner is Some,
            has_candidate(old(self).table(), true) ==> is_best(old(self).table(), winner->0@, true)
                && final(self).table() == promoted(old(self).table(), winner->0@),
            !has_candidate(old(self).table(), true) ==> election_winner(old(self).table(), old(self).node_id@, winner->0@)
                && final(self).table() == elected(old(self).table(), winner->0@),
            final(self).status == ClusterStatus::Running,
            final(self).node_id == old(self).node_id,
            final(self).role == old(self).role,
            final(self).start_time == old(self).start_time,
            final(self).heartbeat_counter == old(self).heartbeat_counter,
    {
        let entries = table_entries(&self.nodes.map);
        let ghost t = self.table();
        match best_candidate(&entries, true) {
            None => {
                proof {
                    if has_candidate(t, true) {
                        let k = choose|k: Seq<char>| t.dom().contains(k) && #[trigger] is_candidate(t[k], true);
                        let l = choose|l: int| 0 <= l < entries@.len() && #[trigger] entries@[l].0@ == k;
                        assert(record_view(entries@[l].1) == t[entries@[l].0@]);
                        assert(!is_candidate(record_view(entries@[l].1), true));
                    }
                }
                self.elect_primary()
            },
            Some(b) => {
                let w = entries[b].0.clone();
                proof {
                    assert forall|k: Seq<char>| t.dom().contains(k) && #[trigger] is_candidate(t[k], true)
                        implies t[k].uptime <= t[w@].uptime by {
                        let l = choose|l: int| 0 <= l < entries@.len() && #[trigger] entries@[l].0@ == k;
                        assert(record_view(entries@[l].1) == t[entries@[l].0@]);
                        assert(is_candidate(record_view(entries@[l].1), true));
                    }
                    assert(record_view(entries@[b as int].1) == t[entries@[b as int].0@]);
                }
                match table_get(&self.nodes.map, w.as_str()) {
                    Some(r) => {
                        let mut r = r;
                        r.node.role = ClusterRole::Primary;
                        r.node.status = owned_text("online");
                        table_insert(&mut self.nodes.map, w.clone(), r);
                    },
                    None => {},
                }
                self.status = ClusterStatus::Running;
                Some(w)
            },
        }
    }
}

/// `n` carries the node details of record `v`.
pub open spec fn node_matches(n: ClusterNode, v: NodeView) -> bool {
    &&& n.id@ == v.id
    &&& n.role == v.role
    &&& n.ip@ == v.ip
    &&& n.status@ == v.status
    &&& n.last_heartbeat == v.reported_heartbeat
    &&& n.uptime_seconds == v.uptime
}

/// A record whose node is online.
pub open spec fn is_online(v: NodeView) -> bool {
    v.status == "online"@
}

/// A record kept by a listing: every one, or (`online_only`) the online ones.
pub open spec fn kept(v: NodeView, online_only: bool) -> bool {
    !online_only || is_online(v)
}

/// `ks` lists, each once, the ids of the table whose records are kept.
pub open spec fn lists_keys(ks: Seq<Seq<char>>, t: Map<Seq<char>, NodeView>, online_only: bool) -> bool {
    &&& ks.no_duplicates()
    &&& forall|i: int| 0 <= i < ks.len() ==> t.dom().contains(#[trigger] ks[i]) && kept(t[ks[i]], online_only)
    &&& forall|k: Seq<char>| t.dom().contains(k) && kept(t[k], online_only) ==> #[trigger] ks.contains(k)
}

/// What the status listing shows of one node.
#[derive(Debug, Clone)]
pub struct NodeInfo {
    pub id: String,
    pub role: ClusterRole,
    pub ip: String,
    pub status: String,
    pub is_primary: bool,
    pub last_heartbeat: i64,
    pub uptime_seconds: u64,
}

/// Some string of `v` holds `s`.
pub open spec fn names(v: Seq<String>, s: Seq<char>) -> bool {
    exists|j: int| 0 <= j < v.len() && #[trigger] v[j]@ == s
}

/// `info` shows record `v`, given the dead ids and the primary's id: a dead
/// node's status reads `dead`.
pub open spec fn info_matches(info: NodeInfo, v: NodeView, dead: Seq<String>, primary: Option<String>) -> bool {
    &&& info.id@ == v.id
    &&& info.role == v.role
    &&& info.ip@ == v.ip
    &&& info.status@ == (if names(dead, v.id) { "dead"@ } else { v.status })
    &&& info.is_primary == (primary matches Some(p) && p@ == v.id)
    &&& info.last_heartbeat == v.reported_heartbeat
    &&& info.uptime_seconds == v.uptime
}

fn copy_node(n: &ClusterNode) -> (c: ClusterNode)
    ensures
        c.id@ == n.id@,
        c.role == n.role,
        c.ip@ == n.ip@,
        c.status@ == n.status@,
        c.last_heartbeat == n.last_heartbeat,
        c.uptime_seconds == n.uptime_seconds,
{
    ClusterNode {
        id: n.id.clone(),
        role: n.role,
        ip: n.ip.clone(),
        status: n.status.clone(),
        last_heartbeat: n.last_heartbeat,
        uptime_seconds: n.uptime_seconds,
    }
}

fn names_exec(v: &Vec<String>, s: &str) -> (r: bool)
    ensures
        r == names(v@, s@),
{
    let mut i: usize = 0;
    while i < v.len()
        invariant
            i <= v@.len(),
            forall|j: int| 0 <= j < i ==> v@[j]@ != s@,
        decreases v@.len() - i,
    {
        if str_eq(v[i].as_str(), s) {
            assert(v@[i as int]@ == s@);
            return true;
        }
        i = i + 1;
    }
    false
}

impl ClusterManager {
    /// The nodes whose status is `online`, each once, in no particular order.
    pub fn get_active_nodes(&self) -> (nodes: Vec<ClusterNode>)
        ensures
            exists|ks: Seq<Seq<char>>| #[trigger] lists_keys(ks, self.table(), true)
                && ks.len() == nodes@.len()
                && forall|i: int| 0 <= i < ks.len() ==> node_matches(#[trigger] nodes@[i], self.table()[ks[i]]),
    {
        let entries = table_entries(&self.nodes.map);
        let ghost t = self.table();
        let mut nodes: Vec<ClusterNode> = Vec::new();
        let ghost mut ks: Seq<Seq<char>> = Seq::empty();
        let ghost mut idx: Seq<int> = Seq::empty();
        let mut i: usize = 0;
        while i < entries.len()
            invariant
                i <= entries@.len(),
                t == self.table(),
                lists_table(entries@, t),
                ks.len() == nodes@.len(),
                idx.len() == ks.len(),
                forall|j: int| 0 <= j < ks.len() ==> 0 <= #[trigger] idx[j] < i && ks[j] == entries@[idx[j]].0@
                    && t.dom().contains(ks[j]) && is_online(t[ks[j]]) && node_matches(nodes@[j], t[ks[j]]),
                forall|a: int, b: int| 0 <= a < b < idx.len() ==> idx[a] < idx[b],
                forall|l: int| 0 <= l < i && is_online(t[#[trigger] entries@[l].0@]) ==> ks.contains(entries@[l].0@),
            decreases entries@.len() - i,
        {
            let rec = &entries[i].1;
            proof {
                assert(t.dom().contains(entries@[i as int].0@));
                assert(record_view(entries@[i as int].1) == t[entries@[i as int].0@]);
            }
            if str_eq(rec.node.status.as_str(), "online") {
                nodes.push(copy_node(&rec.node));
                proof {
                    let ghost old_ks = ks;
                    ks = ks.push(entries@[i as int].0@);
                    idx = idx.push(i as int);
                    assert forall|l: int| 0 <= l < i + 1 && is_online(t[#[trigger] entries@[l].0@]) implies ks.contains(entries@[l].0@) by {
                        if l == i {
                            assert(ks[ks.len() - 1] == entries@[l].0@);
                        } else {
                            assert(old_ks.contains(entries@[l].0@));
                            let j = choose|j: int| 0 <= j < old_ks.len() && old_ks[j] == entries@[l].0@;
                            assert(ks[j] == entries@[l].0@);
                        }
                    }
                }
            }
            i = i + 1;
        }
        proof {
            assert forall|a: int, b: int| 0 <= a < ks.len() && 0 <= b < ks.len() && a != b implies ks[a] != ks[b] by {
                assert(0 <= idx[a] < i && 0 <= idx[b] < i);
                if a < b {
                    assert(idx[a] < idx[b]);
                } else {
                    assert(idx[b] < idx[a]);
                }
            }
            assert forall|k: Seq<char>| t.dom().contains(k) && kept(t[k], true) implies #[trigger] ks.contains(k) by {
                let l = choose|l: int| 0 <= l < entries@.len() && #[trigger] entries@[l].0@ == k;
                assert(is_online(t[entries@[l].0@]));
            }
            assert forall|j: int| 0 <= j < ks.len() implies t.dom().contains(#[trigger] ks[j]) && kept(t[ks[j]], true) by {
                assert(0 <= idx[j] < i);
            }
            assert forall|j: int| 0 <= j < ks.len() implies node_matches(#[trigger] nodes@[j], t[ks[j]]) by {
                assert(0 <= idx[j] < i);
            }
            assert(lists_keys(ks, t, true));
        }
        nodes
    }

    /// What the status listing shows of every node, each once, in no
    /// particular order: `dead_nodes` read as dead, and the node named by
    /// `primary_node` is marked primary.
    pub fn get_all_nodes_info(&self, dead_nodes: &Vec<String>, primary_node: &Option<String>) -> (infos: Vec<NodeInfo>)
        ensures
            exists|ks: Seq<Seq<char>>| #[trigger] lists_keys(ks, self.table(), false)
                && ks.len() == infos@.len()
                && forall|i: int| 0 <= i < ks.len() ==> info_matches(#[trigger] infos@[i], self.table()[ks[i]], dead_nodes@, *primary_node),
    {
        let entries = table_entries(&self.nodes.map);
        let ghost t = self.table();
        let mut infos: Vec<NodeInfo> = Vec::new();
        let mut i: usize = 0;
        while i < entries.len()
            invariant
                i <= entries@.len(),
                t == self.table(),
                lists_table(entries@, t),
                infos@.len() == i,
                forall|j: int| 0 <= j < i ==> info_matches(#[trigger] infos@[j], t[entries@[j].0@], dead_nodes@, *primary_node),
            decreases entries@.len() - i,
        {
            let node = &entries[i].1.node;
            proof {
                assert(t.dom().contains(entries@[i as int].0@));
                assert(record_view(entries@[i as int].1) == t[entries@[i as int].0@]);
            }
            let is_dead = names_exec(dead_nodes, node.id.as_str());
            let is_primary = match primary_node {
                Some(p) => str_eq(p.as_str(), node.id.as_str()),
                None => false,
            };
            let status = if is_dead { owned_text("dead") } else { node.status.clone() };
            infos.push(NodeInfo {
                id: node.id.clone(),
                role: node.role,
                ip: node.ip.clone(),
                status,
                is_primary,
                last_heartbeat: node.last_heartbeat,
                uptime_seconds: node.uptime_seconds,
            });
            i = i + 1;
        }
        proof {
            let ks = Seq::new(entries@.len(), |j: int| entries@[j].0@);
            assert forall|a: int, b: int| 0 <= a < ks.len() && 0 <= b < ks.len() && a != b implies ks[a] != ks[b] by {
                if a < b {
                    assert(entries@[a].0@ != entries@[b].0@);
                } else {
                    assert(entries@[b].0@ != entries@[a].0@);
                }
            }
            assert forall|k: Seq<char>| t.dom().contains(k) && kept(t[k], false) implies #[trigger] ks.contains(k) by {
                let l = choose|l: int| 0 <= l < entries@.len() && #[trigger] entries@[l].0@ == k;
                assert(ks[l] == k);
            }
            assert forall|j: int| 0 <= j < ks.len() implies t.dom().contains(#[trigger] ks[j]) && kept(t[ks[j]], false) by {
                assert(t.dom().contains(entries@[j].0@));
            }
            assert forall|j: int| 0 <= j < ks.len() implies info_matches(#[trigger] infos@[j], t[ks[j]], dead_nodes@, *primary_node) by {
                assert(info_matches(infos@[j], t[entries@[j].0@], dead_nodes@, *primary_node));
            }
            assert(lists_keys(ks, t, false));
        }
        infos
    }
}

/// After an election the winner is the only primary in the table.
pub proof fn law_election_leaves_one_primary(t: Map<Seq<char>, NodeView>, w: Seq<char>)
    requires
        t.dom().contains(w),
    ensures
        forall|k: Seq<char>| #[trigger] elected(t, w).dom().contains(k)
            ==> (elected(t, w)[k].role == ClusterRole::Primary <==> k == w),
{
}

/// In an election every node that is not dead and is a primary or a
/// secondary stands: one whose uptime is above that of every other such
/// node wins and becomes (or stays) primary, and with no such node the node
/// running the election wins.
pub proof fn law_election_candidates(t: Map<Seq<char>, NodeView>, own: Seq<char>, w: Seq<char>, p: Seq<char>)
    ensures
        election_winner(t, own, w) && t.dom().contains(p) && t[p].status != "dead"@
            && (t[p].role == ClusterRole::Primary || t[p].role == ClusterRole::Secondary)
            && (forall|k: Seq<char>| #![trigger t[k]] t.dom().contains(k) && k != p && t[k].status != "dead"@
                && (t[k].role == ClusterRole::Primary || t[k].role == ClusterRole::Secondary)
                ==> t[k].uptime < t[p].uptime)
            ==> w == p && elected(t, w)[p].role == ClusterRole::Primary,
        election_winner(t, own, w) && (forall|k: Seq<char>| #![trigger t[k]] t.dom().contains(k) ==> t[k].status == "dead"@
            || (t[k].role != ClusterRole::Primary && t[k].role != ClusterRole::Secondary))
            ==> w == own,
{
    if election_winner(t, own, w) && t.dom().contains(p) && t[p].status != "dead"@
        && (t[p].role == ClusterRole::Primary || t[p].role == ClusterRole::Secondary)
        && (forall|k: Seq<char>| #![trigger t[k]] t.dom().contains(k) && k != p && t[k].status != "dead"@
            && (t[k].role == ClusterRole::Primary || t[k].role == ClusterRole::Secondary)
            ==> t[k].uptime < t[p].uptime) {
        assert(is_candidate(t[p], false));
        assert(has_candidate(t, false));
        assert(is_best(t, w, false));
        if w != p {
            assert(t[w].uptime < t[p].uptime);
            assert(t[p].uptime <= t[w].uptime);
        }
    }
    if election_winner(t, own, w) && (forall|k: Seq<char>| #![trigger t[k]] t.dom().contains(k) ==> t[k].status == "dead"@
        || (t[k].role != ClusterRole::Primary && t[k].role != ClusterRole::Secondary)) {
        if has_candidate(t, false) {
            let k = choose|k: Seq<char>| t.dom().contains(k) && #[trigger] is_candidate(t[k], false);
            assert(t[k].status == "dead"@ || (t[k].role != ClusterRole::Primary && t[k].role != ClusterRole::Secondary));
        }
    }
}

/// In a fail-over only live secondaries that were not just demoted stand:
/// the winner, when there is one, is such a secondary with an uptime no
/// lower than any other.
pub proof fn law_failover_candidates(t: Map<Seq<char>, NodeView>, w: Seq<char>)
    ensures
        has_candidate(t, true) && is_best(t, w, true) ==> t.dom().contains(w) && t[w].role == ClusterRole::Secondary
            && t[w].status != "dead"@ && t[w].status != "demoted"@
            && (forall|k: Seq<char>| #![trigger t[k]] t.dom().contains(k) && t[k].role == ClusterRole::Secondary
                && t[k].status != "dead"@ && t[k].status != "demoted"@ ==> t[k].uptime <= t[w].uptime),
{
    if has_candidate(t, true) && is_best(t, w, true) {
        assert forall|k: Seq<char>| #![trigger t[k]] t.dom().contains(k) && t[k].role == ClusterRole::Secondary
            && t[k].status != "dead"@ && t[k].status != "demoted"@ implies t[k].uptime <= t[w].uptime by {
            assert(is_candidate(t[k], true));
        }
    }
}

proof fn lemma_marked_primary(t: Map<Seq<char>, NodeView>, d: Set<Seq<char>>)
    ensures
        has_online_primary(mark_dead(t, d)) == has_online_primary(t.remove_keys(d)),
{
    reveal_strlit("dead");
    reveal_strlit("online");
    let m = mark_dead(t, d);
    let r = t.remove_keys(d);
    if has_online_primary(m) {
        let k = choose|k: Seq<char>| m.dom().contains(k) && #[trigger] m[k].role == ClusterRole::Primary && m[k].status == "online"@;
        if d.contains(k) {
            assert(m[k].status == "dead"@);
            assert("dead"@[0] != "online"@[0]);
        }
        assert(r.dom().contains(k) && r[k].role == ClusterRole::Primary);
    }
    if has_online_primary(r) {
        let k = choose|k: Seq<char>| r.dom().contains(k) && #[trigger] r[k].role == ClusterRole::Primary && r[k].status == "online"@;
        assert(m.dom().contains(k) && m[k].role == ClusterRole::Primary);
    }
}

impl ClusterManager {
    /// One round of the dead-node watch at `now`: the dead nodes are found
    /// and marked, a dead node that is the current online primary is demoted
    /// and replaced, and every dead node is then forgotten. Returns the dead
    /// ids.
    pub fn dead_node_check(&mut self, now: i64) -> (dead: Vec<String>)
        ensures
            lists_ids(dead@, dead_ids(old(self).table(), old(self).node_id@, now)),
            final(self).table() == old(self).table().remove_keys(dead_ids(old(self).table(), old(self).node_id@, now)),
            final(self).status == (if dead@.len() > 0 && !has_online_primary(final(self).table()) {
                ClusterStatus::Degraded
            } else {
                old(self).status
            }),
            final(self).node_id == old(self).node_id,
            final(self).role == old(self).role,
            final(self).start_time == old(self).start_time,
            final(self).heartbeat_counter == old(self).heartbeat_counter,
    {
        let dead = self.detect_dead_nodes(now);
        let ghost t = old(self).table();
        let ghost d = dead_ids(t, old(self).node_id@, now);
        let ghost marked = mark_dead(t, d);
        let ghost status_after = self.status;
        proof {
            reveal_strlit("dead");
            reveal_strlit("online");
            lemma_marked_primary(t, d);
            assert(marked.remove_keys(prefix_ids(dead@, 0)) =~= marked);
        }
        let mut i: usize = 0;
        while i < dead.len()
            invariant
                i <= dead@.len(),
                d == dead_ids(t, old(self).node_id@, now),
                marked == mark_dead(t, d),
                lists_ids(dead@, d),
                self.table() == marked.remove_keys(prefix_ids(dead@, i as int)),
                self.status == status_after,
                self.node_id == old(self).node_id,
                self.role == old(self).role,
                self.start_time == old(self).start_time,
                self.heartbeat_counter == old(self).heartbeat_counter,
            decreases dead@.len() - i,
        {
            let id = dead[i].clone();
            proof {
                reveal_strlit("dead");
                reveal_strlit("online");
                assert(d.contains(dead@[i as int]@));
                if prefix_ids(dead@, i as int).contains(dead@[i as int]@) {
                    let j = choose|j: int| 0 <= j < i && #[trigger] dead@[j]@ == dead@[i as int]@;
                    assert(dead@[j]@ != dead@[i as int]@);
                }
                lemma_prefix_ids_step(dead@, i as int);
                assert(self.table().dom().contains(id@));
                assert(self.table()[id@].status == "dead"@);
            }
            let current = self.get_primary_node();
            let is_current = match &current {
                Some(p) => str_eq(p.as_str(), id.as_str()),
                None => false,
            };
            if is_current {
                self.demote_primary(id.clone());
                if self.promote_secondary().is_none() {
                    self.elect_primary();
                }
            }
            self.unregister_node(id);
            proof {
                assert(self.table() =~= marked.remove_keys(prefix_ids(dead@, i as int + 1)));
            }
            i = i + 1;
        }
        proof {
            lemma_prefix_ids_all(dead@, d);
            assert(marked.remove_keys(d) =~= t.remove_keys(d));
        }
        dead
    }
}

/// The port the discovery and heartbeat messages go to.
pub const DISCOVERY_PORT: u16 = 9527;

/// The discovery request of node `id`: `BIUBO:<id>:<port>`.
pub open spec fn discovery_message_spec(id: Seq<char>) -> Seq<char> {
    "BIUBO:"@ + id + ":"@ + decimal(DISCOVERY_PORT as nat)
}

/// The heartbeat of node `id` with role `role`, up for `uptime` seconds:
/// `BIUBO:HB:<id>:<role>:<id>:<uptime>`.
pub open spec fn heartbeat_message_spec(id: Seq<char>, role: ClusterRole, uptime: int) -> Seq<char> {
    "BIUBO:HB:"@ + id + ":"@ + role_name(role) + ":"@ + id + ":"@ + signed_decimal(uptime)
}

/// The node id that a discovery reply announces, unless it is `own` or the
/// reply is not one: the reply starts with `BIUBO` and has at least three
/// `:`-separated parts, the second being the id.
pub open spec fn discovery_reply_id(msg: Seq<char>, own: Seq<char>) -> Option<Seq<char>> {
    let parts = split_spec(msg, ':');
    if starts_with(msg, "BIUBO"@) && parts.len() >= 3 && parts[1] != own {
        Some(parts[1])
    } else {
        None
    }
}

/// The discovery request of node `node_id`.
pub fn discovery_message(node_id: &str) -> (m: String)
    ensures
        m@ == discovery_message_spec(node_id@),
{
    let mut out = chars_of("BIUBO:");
    append_chars(&mut out, chars_of(node_id).as_slice());
    out.push(':');
    push_decimal(&mut out, DISCOVERY_PORT as u64);
    proof {
        reveal_strlit(":");
    }
    assert(out@ =~= discovery_message_spec(node_id@));
    string_from_chars(out.as_slice())
}

/// The node found by a discovery reply from address `ip` at `now`: a worker
/// with status `discovered`, unless the reply is not one or announces this
/// node itself.
pub fn discovered_node(reply: &str, own_id: &str, ip: String, now: i64) -> (node: Option<ClusterNode>)
    ensures
        match node {
            Some(n) => discovery_reply_id(reply@, own_id@) == Some(n.id@) && n.role == ClusterRole::Worker
                && n.ip@ == ip@ && n.status@ == "discovered"@ && n.last_heartbeat == now && n.uptime_seconds == 0,
            None => discovery_reply_id(reply@, own_id@) is None,
        },
{
    let msg = chars_of(reply);
    let magic = chars_of("BIUBO");
    if !matches_at(msg.as_slice(), magic.as_slice(), 0) {
        return None;
    }
    let parts = split_char(msg.as_slice(), ':');
    if parts.len() < 3 {
        return None;
    }
    let own = chars_of(own_id);
    if vec_eq(&parts[1], &own) {
        return None;
    }
    Some(ClusterNode {
        id: string_from_chars(parts[1].as_slice()),
        role: ClusterRole::Worker,
        ip,
        status: owned_text("discovered"),
        last_heartbeat: now,
        uptime_seconds: 0,
    })
}

impl ClusterManager {
    /// This node's heartbeat message at `now`.
    pub fn heartbeat_message(&self, now: i64) -> (m: String)
        ensures
            m@ == heartbeat_message_spec(self.node_id@, self.role, (now - self.start_time) as i64 as int),
    {
        let d: i128 = now as i128 - self.start_time as i128;
        #[verifier::truncate]
        let up: i64 = d as i64;
        let id = chars_of(self.node_id.as_str());
        let mut out = chars_of("BIUBO:HB:");
        append_chars(&mut out, id.as_slice());
        out.push(':');
        let role = self.role.to_string();
        append_chars(&mut out, chars_of(role.as_str()).as_slice());
        out.push(':');
        append_chars(&mut out, id.as_slice());
        out.push(':');
        push_signed_decimal(&mut out, up);
        proof {
            reveal_strlit(":");
        }
        assert(out@ =~= heartbeat_message_spec(self.node_id@, self.role, (now - self.start_time) as i64 as int));
        string_from_chars(out.as_slice())
    }
}

} // verus!
