//! Suggested rule patches: their review status and an in-memory store keyed
//! by patch id, listed newest first.
use vstd::prelude::*;
use crate::text::{chars_of, string_from_chars, vec_eq, append_chars, slice_chars};
use crate::clock::{unix_time_nanos, random_uuid_string};

verus! {

broadcast use vstd::seq_lib::group_to_multiset_ensures;

/// Review state of a patch suggestion.
#[derive(Debug, Clone, Copy, PartialEq, Eq, Structural)]
pub enum PatchStatus {
    Pending,
    Reviewed,
    Applied,
    Ignored,
}

/// The lowercase name of a status.
pub open spec fn status_name(s: PatchStatus) -> Seq<char> {
    match s {
        PatchStatus::Pending => "pending"@,
        PatchStatus::Reviewed => "reviewed"@,
        PatchStatus::Applied => "applied"@,
        PatchStatus::Ignored => "ignored"@,
    }
}

impl PatchStatus {
    /// The lowercase name of the status (`pending`, `reviewed`, `applied`, `ignored`).
    pub fn to_string(&self) -> (s: String)
        ensures
            s@ == status_name(*self),
    {
        proof {
            reveal_strlit("pending");
            reveal_strlit("reviewed");
            reveal_strlit("applied");
            reveal_strlit("ignored");
        }
        let name = match self {
            PatchStatus::Pending => "pending",
            PatchStatus::Reviewed => "reviewed",
            PatchStatus::Applied => "applied",
            PatchStatus::Ignored => "ignored",
        };
        string_from_chars(chars_of(name).as_slice())
    }
}

/// A suggested change to the rules. Times are Unix nanoseconds; metadata
/// values are JSON texts.
#[derive(Debug, Clone)]
pub struct PatchSuggestion {
    pub id: String,
    pub title: String,
    pub description: String,
    pub severity: String,
    pub rule_id: Option<String>,
    pub patch_content: String,
    pub status: PatchStatus,
    pub created_at: u64,
    pub updated_at: Option<u64>,
    pub metadata: Option<Vec<(String, String)>>,
}

/// What a new patch is made from.
#[derive(Debug, Clone)]
pub struct CreatePatchRequest {
    pub title: String,
    pub description: String,
    pub severity: String,
    pub rule_id: Option<String>,
    pub patch_content: String,
    pub metadata: Option<Vec<(String, String)>>,
}

/// A request to move a patch to another status.
#[derive(Debug, Clone, Copy)]
pub struct UpdatePatchStatusRequest {
    pub status: PatchStatus,
}

/// The contents of a patch suggestion.
pub struct PatchView {
    pub id: Seq<char>,
    pub title: Seq<char>,
    pub description: Seq<char>,
    pub severity: Seq<char>,
    pub rule_id: Option<Seq<char>>,
    pub patch_content: Seq<char>,
    pub status: PatchStatus,
    pub created_at: u64,
    pub updated_at: Option<u64>,
    pub metadata: Option<Seq<(Seq<char>, Seq<char>)>>,
}

/// The text of an optional string.
pub open spec fn opt_view(o: Option<String>) -> Option<Seq<char>> {
    match o {
        Some(s) => Some(s@),
        None => None,
    }
}

/// The text of optional name/value pairs.
pub open spec fn meta_view(m: Option<Vec<(String, String)>>) -> Option<Seq<(Seq<char>, Seq<char>)>> {
    match m {
        Some(v) => Some(v@.map_values(|kv: (String, String)| (kv.0@, kv.1@))),
        None => None,
    }
}

impl View for PatchSuggestion {
    type V = PatchView;

    open spec fn view(&self) -> PatchView {
        PatchView {
            id: self.id@,
            title: self.title@,
            description: self.description@,
            severity: self.severity@,
            rule_id: opt_view(self.rule_id),
            patch_content: self.patch_content@,
            status: self.status,
            created_at: self.created_at,
            updated_at: self.updated_at,
            metadata: meta_view(self.metadata),
        }
    }
}

fn copy_opt(o: &Option<String>) -> (r: Option<String>)
    ensures
        opt_view(r) == opt_view(*o),
{
    match o {
        Some(s) => Some(s.clone()),
        None => None,
    }
}

fn copy_meta(m: &Option<Vec<(String, String)>>) -> (r: Option<Vec<(String, String)>>)
    ensures
        meta_view(r) == meta_view(*m),
{
    match m {
        Some(v) => {
            let mut out: Vec<(String, String)> = Vec::new();
            let mut i: usize = 0;
            while i < v.len()
                invariant
                    i <= v@.len(),
                    out@.map_values(|kv: (String, String)| (kv.0@, kv.1@))
                        == v@.take(i as int).map_values(|kv: (String, String)| (kv.0@, kv.1@)),
                decreases v.len() - i,
            {
                let ghost before = out@.map_values(|kv: (String, String)| (kv.0@, kv.1@));
                out.push((v[i].0.clone(), v[i].1.clone()));
                assert(v@.take(i + 1).map_values(|kv: (String, String)| (kv.0@, kv.1@))
                    =~= v@.take(i as int).map_values(|kv: (String, String)| (kv.0@, kv.1@)).push((v@[i as int].0@, v@[i as int].1@)));
                assert(out@.map_values(|kv: (String, String)| (kv.0@, kv.1@)) =~= before.push((v@[i as int].0@, v@[i as int].1@)));
                i = i + 1;
            }
            assert(v@.take(v@.len() as int) =~= v@);
            Some(out)
        },
        None => None,
    }
}

impl PatchSuggestion {
    /// A copy with the same contents.
    pub fn duplicate(&self) -> (p: Self)
        ensures
            p@ == self@,
    {
        PatchSuggestion {
            id: self.id.clone(),
            title: self.title.clone(),
            description: self.description.clone(),
            severity: self.severity.clone(),
            rule_id: copy_opt(&self.rule_id),
            patch_content: self.patch_content.clone(),
            status: self.status,
            created_at: self.created_at,
            updated_at: self.updated_at,
            metadata: copy_meta(&self.metadata),
        }
    }
}

/// The index of the patch with id `id`.
pub open spec fn index_of_id(s: Seq<PatchView>, id: Seq<char>) -> Option<int>
    decreases s.len(),
{
    if s.len() == 0 {
        None
    } else if s.last().id == id {
        Some(s.len() - 1)
    } else {
        index_of_id(s.drop_last(), id)
    }
}

/// Facts about [`index_of_id`].
pub proof fn lemma_index_of_id(s: Seq<PatchView>, id: Seq<char>)
    ensures
        match index_of_id(s, id) {
            Some(i) => 0 <= i < s.len() && s[i].id == id,
            None => forall|j: int| 0 <= j < s.len() ==> s[j].id != id,
        },
    decreases s.len(),
{
    if s.len() > 0 {
        lemma_index_of_id(s.drop_last(), id);
        assert forall|j: int| 0 <= j < s.len() - 1 implies #[trigger] s[j] == s.drop_last()[j] by {}
    }
}

/// No two patches share an id.
pub open spec fn ids_distinct(s: Seq<PatchView>) -> bool {
    forall|i: int, j: int| 0 <= i < j < s.len() ==> s[i].id != s[j].id
}

/// The patches whose status is `filter` (all when there is no filter).
pub open spec fn with_status(s: Seq<PatchView>, filter: Option<PatchStatus>) -> Seq<PatchView>
    decreases s.len(),
{
    if s.len() == 0 {
        s
    } else {
        let rest = with_status(s.drop_last(), filter);
        match filter {
            Some(st) => if s.last().status == st {
                rest.push(s.last())
            } else {
                rest
            },
            None => rest.push(s.last()),
        }
    }
}

/// Newest first: creation times never increase along the sequence.
pub open spec fn newest_first(s: Seq<PatchView>) -> bool {
    forall|i: int, j: int| 0 <= i < j < s.len() ==> s[i].created_at >= s[j].created_at
}

/// The patch that a request and an id make at time `now`: pending, never updated.
pub open spec fn new_patch(r: CreatePatchRequest, id: Seq<char>, now: u64) -> PatchView {
    PatchView {
        id: id,
        title: r.title@,
        description: r.description@,
        severity: r.severity@,
        rule_id: opt_view(r.rule_id),
        patch_content: r.patch_content@,
        status: PatchStatus::Pending,
        created_at: now,
        updated_at: None,
        metadata: meta_view(r.metadata),
    }
}

/// The patch moved to `status`, marked updated at `now`.
pub open spec fn status_updated(v: PatchView, status: PatchStatus, now: u64) -> PatchView {
    PatchView { status: status, updated_at: Some(now), ..v }
}

/// The store after putting `p` in: it replaces the patch with its id, or
/// comes last.
pub open spec fn put_patch(s: Seq<PatchView>, p: PatchView) -> Seq<PatchView> {
    match index_of_id(s, p.id) {
        Some(i) => s.update(i, p),
        None => s.push(p),
    }
}

/// In-memory patch suggestions keyed by id.
#[derive(Debug)]
pub struct PatchStorage {
    patches: Vec<PatchSuggestion>,
}

impl PatchStorage {
    /// The stored patches in storage order.
    pub closed spec fn contents(&self) -> Seq<PatchView> {
        self.patches@.map_values(|p: PatchSuggestion| p@)
    }

    /// Ids are unique.
    pub closed spec fn wf(&self) -> bool {
        ids_distinct(self.contents())
    }

    /// An empty store.
    pub fn new() -> (s: Self)
        ensures
            s.wf(),
            s.contents() == Seq::<PatchView>::empty(),
    {
        let s = PatchStorage { patches: Vec::new() };
        assert(s.contents() =~= Seq::<PatchView>::empty());
        s
    }

    /// The number of stored patches.
    pub fn count(&self) -> (n: usize)
        ensures
            n == self.contents().len(),
    {
        self.patches.len()
    }

    fn position(&self, id: &str) -> (r: Option<usize>)
        requires
            self.wf(),
        ensures
            match r {
                Some(i) => index_of_id(self.contents(), id@) == Some(i as int),
                None => index_of_id(self.contents(), id@) is None,
            },
    {
        let wanted = chars_of(id);
        let ghost c = self.contents();
        proof {
            lemma_index_of_id(c, id@);
        }
        let mut i: usize = self.patches.len();
        assert(c.take(c.len() as int) =~= c);
        while i > 0
            invariant
                i <= self.patches@.len(),
                c == self.contents(),
                wanted@ == id@,
                index_of_id(c, id@) == index_of_id(c.take(i as int), id@),
            decreases i,
        {
            assert(c.take(i as int).last() == self.patches@[i - 1]@);
            assert(c.take(i as int).drop_last() =~= c.take(i - 1));
            let k = chars_of(self.patches[i - 1].id.as_str());
            if vec_eq(&k, &wanted) {
                return Some(i - 1);
            }
            i = i - 1;
        }
        assert(c.take(0) =~= Seq::<PatchView>::empty());
        None
    }

    /// The patch with id `id`, if stored.
    pub fn get_patch(&self, id: &str) -> (r: Option<PatchSuggestion>)
        requires
            self.wf(),
        ensures
            match index_of_id(self.contents(), id@) {
                Some(i) => r matches Some(p) && p@ == self.contents()[i],
                None => r is None,
            },
    {
        proof {
            lemma_index_of_id(self.contents(), id@);
        }
        match self.position(id) {
            Some(i) => Some(self.patches[i].duplicate()),
            None => None,
        }
    }

    /// Stores a new pending patch with id `patch_` followed by the first
    /// eight characters of `uuid`, created at `now`; a patch with the same
    /// id is replaced.
    pub fn create_patch_with(&mut self, request: CreatePatchRequest, uuid: &str, now: u64) -> (p: PatchSuggestion)
        requires
            old(self).wf(),
            uuid@.len() >= 8,
        ensures
            final(self).wf(),
            p@ == new_patch(request, "patch_"@ + uuid@.take(8), now),
            final(self).contents() == put_patch(old(self).contents(), p@),
    {
        proof {
            reveal_strlit("patch_");
        }
        let u = chars_of(uuid);
        let mut id = chars_of("patch_");
        append_chars(&mut id, slice_chars(u.as_slice(), 0, 8).as_slice());
        assert(u@.subrange(0, 8) =~= uuid@.take(8));
        let p = PatchSuggestion {
            id: string_from_chars(id.as_slice()),
            title: request.title,
            description: request.description,
            severity: request.severity,
            rule_id: request.rule_id,
            patch_content: request.patch_content,
            status: PatchStatus::Pending,
            created_at: now,
            updated_at: None,
            metadata: request.metadata,
        };
        let ghost before = self.contents();
        let copy = p.duplicate();
        match self.position(p.id.as_str()) {
            Some(i) => {
                proof {
                    lemma_index_of_id(before, p@.id);
                }
                self.patches.set(i, copy);
                assert(self.contents() =~= before.update(i as int, p@));
            },
            None => {
                proof {
                    lemma_index_of_id(before, p@.id);
                }
                self.patches.push(copy);
                assert(self.contents() =~= before.push(p@));
            },
        }
        p
    }

    /// Stores a new pending patch with a random id, created now.
    pub fn create_patch(&mut self, request: CreatePatchRequest) -> (p: PatchSuggestion)
        requires
            old(self).wf(),
        ensures
            final(self).wf(),
            exists|uuid: Seq<char>, now: u64| uuid.len() == 36
                && p@ == #[trigger] new_patch(request, "patch_"@ + uuid.take(8), now),
            final(self).contents() == put_patch(old(self).contents(), p@),
    {
        let uuid = random_uuid_string();
        let now = unix_time_nanos();
        self.create_patch_with(request, uuid.as_str(), now)
    }

    /// Moves the patch with id `id` to `status`, marking it updated at `now`;
    /// returns the updated patch, or `None` when no patch has that id.
    pub fn update_status_at(&mut self, id: &str, status: PatchStatus, now: u64) -> (r: Option<PatchSuggestion>)
        requires
            old(self).wf(),
        ensures
            final(self).wf(),
            match index_of_id(old(self).contents(), id@) {
                Some(i) => r matches Some(p)
                    && p@ == (PatchView { status: status, updated_at: Some(now), ..old(self).contents()[i] })
                    && final(self).contents() == old(self).contents().update(i, p@),
                None => r is None && final(self).contents() == old(self).contents(),
            },
    {
        let ghost before = self.contents();
        proof {
            lemma_index_of_id(before, id@);
        }
        match self.position(id) {
            Some(i) => {
                let mut p = self.patches[i].duplicate();
                p.status = status;
                p.updated_at = Some(now);
                let copy = p.duplicate();
                self.patches.set(i, copy);
                assert(self.contents() =~= before.update(i as int, p@));
                Some(p)
            },
            None => None,
        }
    }

    /// Moves the patch with id `id` to `status`, marking it updated now.
    pub fn update_status(&mut self, id: &str, status: PatchStatus) -> (r: Option<PatchSuggestion>)
        requires
            old(self).wf(),
        ensures
            final(self).wf(),
            match index_of_id(old(self).contents(), id@) {
                Some(i) => r matches Some(p)
                    && (exists|now: u64| p@ == #[trigger] status_updated(old(self).contents()[i], status, now))
                    && final(self).contents() == old(self).contents().update(i, p@),
                None => r is None && final(self).contents() == old(self).contents(),
            },
    {
        let now = unix_time_nanos();
        let r = self.update_status_at(id, status, now);
        proof {
            match index_of_id(old(self).contents(), id@) {
                Some(i) => {
                    assert(r->0@ == status_updated(old(self).contents()[i], status, now));
                },
                None => {},
            }
        }
        r
    }

    /// Removes the patch with id `id`; says whether there was one.
    pub fn delete_patch(&mut self, id: &str) -> (removed: bool)
        requires
            old(self).wf(),
        ensures
            final(self).wf(),
            match index_of_id(old(self).contents(), id@) {
                Some(i) => removed && final(self).contents() == old(self).contents().remove(i),
                None => !removed && final(self).contents() == old(self).contents(),
            },
    {
        let ghost before = self.contents();
        proof {
            lemma_index_of_id(before, id@);
        }
        match self.position(id) {
            Some(i) => {
                self.patches.remove(i);
                assert(self.contents() =~= before.remove(i as int));
                true
            },
            None => false,
        }
    }

    /// Copies of the patches with status `status_filter` (all when `None`),
    /// newest first.
    pub fn list_patches(&self, status_filter: Option<&PatchStatus>) -> (r: Vec<PatchSuggestion>)
        requires
            self.wf(),
        ensures
            ({
                let f = match status_filter {
                    Some(st) => Some(*st),
                    None => None,
                };
                let rv = r@.map_values(|p: PatchSuggestion| p@);
                &&& newest_first(rv)
                &&& rv.to_multiset() == with_status(self.contents(), f).to_multiset()
            }),
    {
        let ghost f = match status_filter {
            Some(st) => Some(*st),
            None => None,
        };
        let ghost c = self.contents();
        let mut out: Vec<PatchSuggestion> = Vec::new();
        let mut i: usize = 0;
        assert(c.take(0) =~= Seq::<PatchView>::empty());
        while i < self.patches.len()
            invariant
                i <= self.patches@.len(),
                c == self.contents(),
                f == match status_filter {
                    Some(st) => Some(*st),
                    None => None,
                },
                newest_first(out@.map_values(|p: PatchSuggestion| p@)),
                out@.map_values(|p: PatchSuggestion| p@).to_multiset() == with_status(c.take(i as int), f).to_multiset(),
            decreases self.patches.len() - i,
        {
            assert(c.take(i + 1).drop_last() =~= c.take(i as int));
            assert(c.take(i + 1).last() == self.patches@[i as int]@);
            let keep = match status_filter {
                Some(st) => self.patches[i].status == *st,
                None => true,
            };
            if keep {
                let p = self.patches[i].duplicate();
                let ghost ov = out@.map_values(|q: PatchSuggestion| q@);
                let mut k: usize = 0;
                while k < out.len() && out[k].created_at > p.created_at
                    invariant
                        k <= out@.len(),
                        ov == out@.map_values(|q: PatchSuggestion| q@),
                        forall|j: int| 0 <= j < k ==> ov[j].created_at > p.created_at,
                    decreases out.len() - k,
                {
                    k = k + 1;
                }
                let ghost pv = p@;
                out.insert(k, p);
                proof {
                    let nv = out@.map_values(|q: PatchSuggestion| q@);
                    assert(nv =~= ov.insert(k as int, pv));
                    lemma_insert_multiset(ov, k as int, pv);
                    assert forall|a: int, b: int| 0 <= a < b < nv.len() implies nv[a].created_at >= nv[b].created_at by {
                        if b < k {
                        } else if a < k && b == k {
                        } else if a < k {
                            assert(nv[b] == ov[b - 1]);
                        } else if a == k {
                            assert(nv[b] == ov[b - 1]);
                            assert(ov[k as int].created_at <= pv.created_at);
                        } else {
                            assert(nv[a] == ov[a - 1]);
                            assert(nv[b] == ov[b - 1]);
                        }
                    }
                }
            }
            i = i + 1;
        }
        assert(c.take(self.patches@.len() as int) =~= c);
        out
    }
}

/// Inserting an element adds it to the multiset of a sequence.
pub proof fn lemma_insert_multiset<A>(s: Seq<A>, k: int, x: A)
    requires
        0 <= k <= s.len(),
    ensures
        s.insert(k, x).to_multiset() == s.to_multiset().insert(x),
{
    let t = s.insert(k, x);
    s.insert_ensures(k, x);
    assert(t.remove(k) =~= s);
    assert(t.to_multiset().remove(x) == s.to_multiset());
    assert(t.contains(x));
    assert(t.to_multiset().count(x) > 0);
    assert(t.to_multiset() =~= s.to_multiset().insert(x));
}

/// Storing a patch keeps ids unique, and looking its id up afterwards finds
/// exactly that patch.
pub proof fn law_get_after_put(s: Seq<PatchView>, p: PatchView)
    requires
        ids_distinct(s),
    ensures
        ids_distinct(put_patch(s, p)),
        index_of_id(put_patch(s, p), p.id) matches Some(i) && put_patch(s, p)[i] == p,
{
    lemma_index_of_id(s, p.id);
    let t = put_patch(s, p);
    lemma_index_of_id(t, p.id);
    match index_of_id(s, p.id) {
        Some(i) => {
            assert(t[i] == p);
        },
        None => {
            assert(t[s.len() as int] == p);
        },
    }
}

/// After a delete, no patch with that id is left.
pub proof fn law_delete_removes_id(s: Seq<PatchView>, id: Seq<char>)
    requires
        ids_distinct(s),
        index_of_id(s, id) is Some,
    ensures
        index_of_id(s.remove(index_of_id(s, id)->0), id) is None,
        s.remove(index_of_id(s, id)->0).len() == s.len() - 1,
{
    lemma_index_of_id(s, id);
    let i = index_of_id(s, id)->0;
    let t = s.remove(i);
    lemma_index_of_id(t, id);
    assert forall|j: int| 0 <= j < t.len() implies t[j].id != id by {
        if j < i {
            assert(t[j] == s[j]);
        } else {
            assert(t[j] == s[j + 1]);
        }
    }
}

/// The unfiltered listing holds every stored patch.
pub proof fn law_unfiltered_listing_is_everything(s: Seq<PatchView>)
    ensures
        with_status(s, None) == s,
    decreases s.len(),
{
    if s.len() > 0 {
        law_unfiltered_listing_is_everything(s.drop_last());
        assert(s.drop_last().push(s.last()) =~= s);
    }
}

} // verus!
