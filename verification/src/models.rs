//! Face-group and user metadata, IPC request messages and embedding metadata.
//!
//! Identifiers are 128-bit UUID values; features (float vectors) are not held
//! here, only the metadata that the rules read.

use crate::ident::{chrono_timestamp, is_v4_uuid, new_uuid};
use crate::text::str_eq;
use vstd::prelude::*;
use vstd::string::StringExecFns;

verus! {

/// Lightweight group summary stored in user metadata.
#[derive(Debug)]
pub struct FaceGroupSummary {
    pub id: u128,
    pub name: String,
    pub created_at: i64,
    pub face_count: usize,
}

impl Clone for FaceGroupSummary {
    fn clone(&self) -> (r: Self)
        ensures
            r == *self,
    {
        FaceGroupSummary {
            id: self.id,
            name: self.name.clone(),
            created_at: self.created_at,
            face_count: self.face_count,
        }
    }
}

impl FaceGroupSummary {
    /// A fresh, empty group summary with a new random id.
    pub fn new(name: &str) -> (r: Self)
        ensures
            r.name@ == name@,
            r.face_count == 0,
            is_v4_uuid(r.id),
    {
        FaceGroupSummary {
            id: new_uuid(),
            name: String::from_str(name),
            created_at: chrono_timestamp(),
            face_count: 0,
        }
    }
}

/// Full group metadata stored alongside the group directory.
#[derive(Debug)]
pub struct FaceGroupMetadata {
    pub id: u128,
    pub name: String,
    pub created_at: i64,
    pub face_ids: Vec<u128>,
}

impl Clone for FaceGroupMetadata {
    fn clone(&self) -> (r: Self)
        ensures
            r.id == self.id,
            r.name == self.name,
            r.created_at == self.created_at,
            r.face_ids@ == self.face_ids@,
    {
        let mut ids: Vec<u128> = Vec::new();
        let mut i: usize = 0;
        while i < self.face_ids.len()
            invariant
                i <= self.face_ids.len(),
                ids@ == self.face_ids@.take(i as int),
            decreases self.face_ids.len() - i,
        {
            ids.push(self.face_ids[i]);
            assert(self.face_ids@.take(i + 1) =~= self.face_ids@.take(i as int).push(self.face_ids@[i as int]));
            i = i + 1;
        }
        assert(self.face_ids@.take(self.face_ids.len() as int) =~= self.face_ids@);
        FaceGroupMetadata {
            id: self.id,
            name: self.name.clone(),
            created_at: self.created_at,
            face_ids: ids,
        }
    }
}

/// The summary that a group's full metadata gives.
pub open spec fn summary_of(g: FaceGroupMetadata) -> FaceGroupSummary {
    FaceGroupSummary {
        id: g.id,
        name: g.name,
        created_at: g.created_at,
        face_count: g.face_ids@.len() as usize,
    }
}

/// First position of `id` in `ids`, if any.
pub open spec fn first_index_of(ids: Seq<u128>, id: u128) -> Option<int> {
    if exists|i: int| 0 <= i < ids.len() && ids[i] == id {
        let i = choose|i: int|
            0 <= i < ids.len() && ids[i] == id && forall|j: int| 0 <= j < i ==> ids[j] != id;
        Some(i)
    } else {
        None
    }
}

/// `i` is the first position of `id` in `ids`.
pub open spec fn is_first_index(ids: Seq<u128>, id: u128, i: int) -> bool {
    0 <= i < ids.len() && ids[i] == id && forall|j: int| 0 <= j < i ==> ids[j] != id
}

/// A position that is the first occurrence of `id` is what `first_index_of` gives.
pub proof fn lemma_first_index(ids: Seq<u128>, id: u128, i: int)
    requires
        is_first_index(ids, id, i),
    ensures
        first_index_of(ids, id) == Some(i),
{
    assert(exists|k: int| 0 <= k < ids.len() && ids[k] == id);
    let k = choose|k: int|
        0 <= k < ids.len() && ids[k] == id && forall|j: int| 0 <= j < k ==> ids[j] != id;
    assert(is_first_index(ids, id, k)) by {
        assert(exists|k: int| is_first_index(ids, id, k));
    }
    if k < i {
        assert(ids[k] != id);
    }
    if i < k {
        assert(ids[i] != id);
    }
}

proof fn lemma_exists_first_index(ids: Seq<u128>, id: u128, k: int)
    requires
        0 <= k < ids.len(),
        ids[k] == id,
    ensures
        exists|i: int| is_first_index(ids, id, i),
    decreases k,
{
    if exists|j: int| 0 <= j < k && ids[j] == id {
        let j = choose|j: int| 0 <= j < k && ids[j] == id;
        lemma_exists_first_index(ids, id, j);
    } else {
        assert(is_first_index(ids, id, k));
    }
}

/// When `first_index_of` finds a position, it is the first occurrence.
pub proof fn lemma_first_index_some(ids: Seq<u128>, id: u128)
    ensures
        first_index_of(ids, id) matches Some(i) ==> is_first_index(ids, id, i),
        first_index_of(ids, id) is None <==> !ids.contains(id),
{
    if exists|i: int| 0 <= i < ids.len() && ids[i] == id {
        let k = choose|i: int| 0 <= i < ids.len() && ids[i] == id;
        lemma_exists_first_index(ids, id, k);
        assert(ids.contains(id));
    }
}

impl FaceGroupMetadata {
    /// A fresh, empty group with a new random id.
    pub fn new(name: &str) -> (r: Self)
        ensures
            r.name@ == name@,
            r.face_ids@.len() == 0,
            is_v4_uuid(r.id),
    {
        let summary = FaceGroupSummary::new(name);
        FaceGroupMetadata {
            id: summary.id,
            name: summary.name,
            created_at: summary.created_at,
            face_ids: Vec::new(),
        }
    }

    /// The summary of this group.
    pub fn summary(&self) -> (r: FaceGroupSummary)
        ensures
            r == summary_of(*self),
    {
        FaceGroupSummary {
            id: self.id,
            name: self.name.clone(),
            created_at: self.created_at,
            face_count: self.face_ids.len(),
        }
    }

    /// Records a face id as a member of this group.
    pub fn add_face(&mut self, id: u128)
        ensures
            final(self).face_ids@ == old(self).face_ids@.push(id),
            final(self).id == old(self).id,
            final(self).name == old(self).name,
            final(self).created_at == old(self).created_at,
    {
        self.face_ids.push(id);
    }

    /// Removes the first occurrence of `id`; tells whether it was present.
    pub fn remove_face(&mut self, id: &u128) -> (r: bool)
        ensures
            r == old(self).face_ids@.contains(*id),
            r ==> (first_index_of(old(self).face_ids@, *id) matches Some(i)
                && final(self).face_ids@ == old(self).face_ids@.remove(i)),
            !r ==> final(self).face_ids@ == old(self).face_ids@,
            final(self).id == old(self).id,
            final(self).name == old(self).name,
            final(self).created_at == old(self).created_at,
    {
        let mut i: usize = 0;
        while i < self.face_ids.len()
            invariant
                i <= self.face_ids.len(),
                self.face_ids@ == old(self).face_ids@,
                self.id == old(self).id,
                self.name == old(self).name,
                self.created_at == old(self).created_at,
                forall|j: int| 0 <= j < i ==> self.face_ids@[j] != *id,
            decreases self.face_ids.len() - i,
        {
            if self.face_ids[i] == *id {
                proof {
                    lemma_first_index(self.face_ids@, *id, i as int);
                }
                self.face_ids.remove(i);
                return true;
            }
            i = i + 1;
        }
        false
    }
}

/// User metadata for face storage.
#[derive(Debug)]
pub struct UserMetadata {
    pub username: String,
    pub default_group_id: Option<u128>,
    pub groups: Vec<FaceGroupSummary>,
    pub last_updated: i64,
}

/// The ids of a list of groups, in order.
pub open spec fn group_ids(groups: Seq<FaceGroupSummary>) -> Seq<u128> {
    groups.map_values(|g: FaceGroupSummary| g.id)
}

/// Sum of the face counts of a list of groups.
pub open spec fn face_total(groups: Seq<FaceGroupSummary>) -> nat
    decreases groups.len(),
{
    if groups.len() == 0 {
        0
    } else {
        face_total(groups.drop_last()) + groups.last().face_count as nat
    }
}

/// The group that `UserMetadata::default_group` picks: the group whose id is the
/// default id, else the first group; none when no default id is set.
pub open spec fn default_group_of(m: UserMetadata) -> Option<FaceGroupSummary> {
    match m.default_group_id {
        None => None,
        Some(d) => match first_index_of(group_ids(m.groups@), d) {
            Some(i) => Some(m.groups@[i]),
            None => if m.groups@.len() > 0 { Some(m.groups@[0]) } else { None },
        },
    }
}

/// What `upsert_group` leaves in the list of groups.
pub open spec fn upserted(groups: Seq<FaceGroupSummary>, g: FaceGroupSummary) -> Seq<FaceGroupSummary> {
    match first_index_of(group_ids(groups), g.id) {
        Some(i) => groups.update(i, g),
        None => groups.push(g),
    }
}

/// Ids of the groups are pairwise distinct.
pub open spec fn unique_group_ids(groups: Seq<FaceGroupSummary>) -> bool {
    forall|i: int, j: int| 0 <= i < j < groups.len() ==> groups[i].id != groups[j].id
}

/// The metadata is well formed: group ids are distinct, and the default id,
/// when set, names one of the groups.
pub open spec fn metadata_wf(m: UserMetadata) -> bool {
    &&& unique_group_ids(m.groups@)
    &&& (m.default_group_id matches Some(d) ==> group_ids(m.groups@).contains(d))
}

impl UserMetadata {
    /// Empty metadata for `username`.
    pub fn new(username: &str) -> (r: Self)
        ensures
            r.username@ == username@,
            r.default_group_id is None,
            r.groups@.len() == 0,
    {
        UserMetadata {
            username: String::from_str(username),
            default_group_id: None,
            groups: Vec::new(),
            last_updated: chrono_timestamp(),
        }
    }

    /// Total number of faces over all groups.
    pub fn total_face_count(&self) -> (r: usize)
        requires
            face_total(self.groups@) <= usize::MAX,
        ensures
            r == face_total(self.groups@),
    {
        let mut total: usize = 0;
        let mut i: usize = 0;
        while i < self.groups.len()
            invariant
                i <= self.groups.len(),
                total == face_total(self.groups@.take(i as int)),
                face_total(self.groups@) <= usize::MAX,
            decreases self.groups.len() - i,
        {
            assert(self.groups@.take(i + 1).drop_last() =~= self.groups@.take(i as int));
            proof {
                lemma_face_total_prefix(self.groups@, i as int + 1);
            }
            total = total + self.groups[i].face_count;
            i = i + 1;
        }
        assert(self.groups@.take(i as int) =~= self.groups@);
        total
    }

    /// Index of the first group with id `id`.
    pub fn find_group_index(&self, id: u128) -> (r: Option<usize>)
        ensures
            r matches Some(i) ==> first_index_of(group_ids(self.groups@), id) == Some(i as int)
                && i < self.groups@.len() && self.groups@[i as int].id == id,
            r is None ==> first_index_of(group_ids(self.groups@), id) is None
                && !group_ids(self.groups@).contains(id),
    {
        let mut i: usize = 0;
        while i < self.groups.len()
            invariant
                i <= self.groups.len(),
                forall|j: int| 0 <= j < i ==> group_ids(self.groups@)[j] != id,
            decreases self.groups.len() - i,
        {
            if self.groups[i].id == id {
                proof {
                    lemma_first_index(group_ids(self.groups@), id, i as int);
                }
                return Some(i);
            }
            i = i + 1;
        }
        assert(!(exists|j: int| 0 <= j < group_ids(self.groups@).len() && group_ids(self.groups@)[j] == id));
        None
    }

    /// Replaces the group with the same id, or appends it.
    pub fn upsert_group(&mut self, group: FaceGroupSummary)
        ensures
            final(self).groups@ == upserted(old(self).groups@, group),
            final(self).username == old(self).username,
            final(self).default_group_id == old(self).default_group_id,
    {
        match self.find_group_index(group.id) {
            Some(i) => {
                self.groups.set(i, group);
            },
            None => {
                self.groups.push(group);
            },
        }
        self.last_updated = chrono_timestamp();
    }

    /// Removes the group with id `id`; when it was the default, the first
    /// remaining group becomes the default. Tells whether a group was removed.
    pub fn remove_group(&mut self, id: &u128) -> (r: bool)
        ensures
            r == group_ids(old(self).groups@).contains(*id),
            r ==> (first_index_of(group_ids(old(self).groups@), *id) matches Some(i)
                && final(self).groups@ == old(self).groups@.remove(i)),
            r && old(self).default_group_id == Some(*id) ==> final(self).default_group_id == (
                if final(self).groups@.len() > 0 { Some(final(self).groups@[0].id) } else { None::<u128> }),
            r && old(self).default_group_id != Some(*id) ==> final(self).default_group_id == old(self).default_group_id,
            !r ==> *final(self) == *old(self),
            final(self).username == old(self).username,
    {
        match self.find_group_index(*id) {
            Some(pos) => {
                self.groups.remove(pos);
                if self.default_group_id == Some(*id) {
                    self.default_group_id = if self.groups.len() > 0 {
                        Some(self.groups[0].id)
                    } else {
                        None
                    };
                }
                self.last_updated = chrono_timestamp();
                true
            },
            None => {
                proof {
                    if group_ids(self.groups@).contains(*id) {
                        let k = choose|k: int| 0 <= k < group_ids(self.groups@).len() && group_ids(self.groups@)[k] == *id;
                        assert(exists|k: int| 0 <= k < group_ids(self.groups@).len() && group_ids(self.groups@)[k] == *id);
                    }
                }
                false
            },
        }
    }

    /// The default group: the group whose id is the default id, else the first
    /// group; `None` when no default id is set.
    pub fn default_group(&self) -> (r: Option<&FaceGroupSummary>)
        ensures
            r matches Some(g) ==> default_group_of(*self) == Some(*g),
            r is None ==> default_group_of(*self) is None,
    {
        let d = match self.default_group_id {
            Some(d) => d,
            None => return None,
        };
        match self.find_group_index(d) {
            Some(i) => Some(&self.groups[i]),
            None => {
                if self.groups.len() > 0 {
                    Some(&self.groups[0])
                } else {
                    None
                }
            },
        }
    }
}

/// The faces of the first `k` groups are no more than the faces of all groups.
pub proof fn lemma_face_total_prefix(groups: Seq<FaceGroupSummary>, k: int)
    requires
        0 <= k <= groups.len(),
    ensures
        face_total(groups.take(k)) <= face_total(groups),
    decreases groups.len(),
{
    if k < groups.len() {
        assert(groups.drop_last().take(k) =~= groups.take(k));
        lemma_face_total_prefix(groups.drop_last(), k);
    } else {
        assert(groups.take(k) =~= groups);
    }
}

/// IPC authentication request message.
#[derive(Debug)]
pub struct AuthRequest {
    pub msg_type: String,
    pub username: String,
    pub source: String,
    pub timeout: u32,
}

impl AuthRequest {
    /// An `auth` request for `username` from `source`, waiting at most `timeout` seconds.
    pub fn new(username: &str, source: &str, timeout: u32) -> (r: Self)
        ensures
            r.msg_type@ == "auth"@,
            r.username@ == username@,
            r.source@ == source@,
            r.timeout == timeout,
    {
        AuthRequest {
            msg_type: String::from_str("auth"),
            username: String::from_str(username),
            source: String::from_str(source),
            timeout,
        }
    }
}

/// IPC cancellation request message.
#[derive(Debug)]
pub struct CancelRequest {
    pub msg_type: String,
}

impl CancelRequest {
    /// A `cancel` request.
    pub fn new() -> (r: Self)
        ensures
            r.msg_type@ == "cancel"@,
    {
        CancelRequest { msg_type: String::from_str("cancel") }
    }
}

/// Removing a face id right after adding it, when it was not a member yet,
/// gives back the group's ids as they were.
pub proof fn lemma_remove_undoes_add(ids: Seq<u128>, id: u128)
    requires
        !ids.contains(id),
    ensures
        first_index_of(ids.push(id), id) == Some(ids.len() as int),
        ids.push(id).remove(ids.len() as int) == ids,
{
    let after = ids.push(id);
    assert(is_first_index(after, id, ids.len() as int)) by {
        assert forall|j: int| 0 <= j < ids.len() implies after[j] != id by {
            assert(after[j] == ids[j]);
        }
    }
    lemma_first_index(after, id, ids.len() as int);
    assert(after.remove(ids.len() as int) =~= ids);
}

/// The first position of `g.id` in `after` is `pos`, where `after` agrees
/// with `groups` before `pos` and holds `g` at `pos`, and `groups` has no
/// group with that id before `pos`.
proof fn lemma_first_at(groups: Seq<FaceGroupSummary>, after: Seq<FaceGroupSummary>, g: FaceGroupSummary, pos: int)
    requires
        0 <= pos < after.len(),
        pos <= groups.len(),
        after[pos] == g,
        forall|j: int| 0 <= j < pos ==> after[j] == groups[j],
        forall|j: int| 0 <= j < pos ==> groups[j].id != g.id,
    ensures
        first_index_of(group_ids(after), g.id) == Some(pos),
{
    let ids = group_ids(after);
    assert(ids[pos] == g.id);
    assert forall|j: int| 0 <= j < pos implies ids[j] != g.id by {
        assert(ids[j] == after[j].id);
    }
    lemma_first_index(ids, g.id, pos);
}

/// A group summary written with `upsert_group` is read back by its id: the
/// first group with that id is the one written.
pub proof fn lemma_upsert_then_find(groups: Seq<FaceGroupSummary>, g: FaceGroupSummary)
    ensures
        first_index_of(group_ids(upserted(groups, g)), g.id) matches Some(i) && upserted(groups, g)[i] == g,
{
    let ids = group_ids(groups);
    lemma_first_index_some(ids, g.id);
    let after = upserted(groups, g);
    match first_index_of(ids, g.id) {
        Some(i) => {
            assert(after == groups.update(i, g));
            assert forall|j: int| 0 <= j < i implies groups[j].id != g.id by {
                assert(ids[j] == groups[j].id);
            }
            lemma_first_at(groups, after, g, i);
        },
        None => {
            assert(after == groups.push(g));
            assert forall|j: int| 0 <= j < groups.len() implies groups[j].id != g.id by {
                assert(ids[j] == groups[j].id);
            }
            lemma_first_at(groups, after, g, groups.len() as int);
        },
    }
}

} // verus!
