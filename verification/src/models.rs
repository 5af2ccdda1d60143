//! Shared records: reputation provider settings, cluster roles and nodes,
//! and the API keys of the WAF API.
use vstd::prelude::*;
use crate::text::{chars_of, string_from_chars, vec_eq};

verus! {

/// One IP reputation provider.
#[derive(Debug, Clone)]
pub struct ReputationProviderConfig {
    pub provider_type: String,
    pub api_key: String,
    pub enabled: bool,
    pub base_url: Option<String>,
}

/// The role of a node in a cluster.
#[derive(Debug, Clone, Copy, PartialEq, Eq, Structural)]
pub enum ClusterRole {
    Primary,
    Secondary,
    Worker,
}

/// The lowercase name of a role.
pub open spec fn role_name(r: ClusterRole) -> Seq<char> {
    match r {
        ClusterRole::Primary => "primary"@,
        ClusterRole::Secondary => "secondary"@,
        ClusterRole::Worker => "worker"@,
    }
}

impl ClusterRole {
    /// The lowercase name of the role (`primary`, `secondary`, `worker`).
    pub fn to_string(&self) -> (s: String)
        ensures
            s@ == role_name(*self),
    {
        proof {
            reveal_strlit("primary");
            reveal_strlit("secondary");
            reveal_strlit("worker");
        }
        let name = match self {
            ClusterRole::Primary => "primary",
            ClusterRole::Secondary => "secondary",
            ClusterRole::Worker => "worker",
        };
        string_from_chars(chars_of(name).as_slice())
    }
}

/// A member of the cluster. The heartbeat time is in Unix seconds.
#[derive(Debug, Clone)]
pub struct ClusterNode {
    pub id: String,
    pub role: ClusterRole,
    pub ip: String,
    pub status: String,
    pub last_heartbeat: i64,
    pub uptime_seconds: u64,
}

/// A key of the WAF API with its permissions. Times are Unix seconds.
#[derive(Debug, Clone)]
pub struct WafApiKey {
    pub id: String,
    pub key: String,
    pub name: String,
    pub permissions: Vec<String>,
    pub rate_limit: u64,
    pub created_at: i64,
    pub last_used_at: Option<i64>,
    pub is_active: bool,
}

/// The texts of a list of strings.
pub open spec fn texts(v: Seq<String>) -> Seq<Seq<char>> {
    v.map_values(|s: String| s@)
}

impl WafApiKey {
    /// Whether the key grants `permission`: it is listed, or `*` is.
    pub fn has_permission(&self, permission: &str) -> (b: bool)
        ensures
            b == (texts(self.permissions@).contains(permission@) || texts(self.permissions@).contains("*"@)),
    {
        proof {
            reveal_strlit("*");
        }
        let wanted = chars_of(permission);
        let star = chars_of("*");
        let ghost t = texts(self.permissions@);
        let mut i: usize = 0;
        while i < self.permissions.len()
            invariant
                i <= self.permissions@.len(),
                t == texts(self.permissions@),
                wanted@ == permission@,
                star@ == "*"@,
                forall|j: int| 0 <= j < i ==> t[j] != permission@ && t[j] != "*"@,
            decreases self.permissions.len() - i,
        {
            let p = chars_of(self.permissions[i].as_str());
            if vec_eq(&p, &wanted) || vec_eq(&p, &star) {
                assert(t[i as int] == p@);
                return true;
            }
            i = i + 1;
        }
        false
    }
}

} // verus!
