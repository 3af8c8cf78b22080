//! The rules of the face store: resolving user, group and face selectors,
//! creating and removing groups, choosing the default group, adding faces and
//! ordering records. The store on disk reads the metadata, lets these
//! functions decide, and writes back what they leave.

use crate::error::Error;
use crate::ident::{uuid_string, uuid_text};
use crate::models::{
    default_group_of, face_total, first_index_of, group_ids, metadata_wf, unique_group_ids, upserted,
    FaceGroupMetadata, FaceGroupSummary, UserMetadata, summary_of,
};
use crate::selector::{
    bad_index_text, default_group_name, default_group_name_for_user, invalid_name_text,
    empty_name_text, is_identifier, is_legacy_index, is_storage_error, legacy_index_text,
    parse_index_selector, validate_selector_name,
};
use crate::text::{decimal, digits_value, is_digit_run, push_decimal, str_eq, trim, trimmed};
use vstd::prelude::*;
use vstd::string::StrSliceExecFns;
use vstd::string::StringExecFns;

verus! {

/// A stored face record, without its feature vector.
#[derive(Debug)]
pub struct FaceRecordInfo {
    pub id: u128,
    pub username: String,
    pub group_id: u128,
    pub label: String,
    pub created_at: i64,
}

impl Clone for FaceRecordInfo {
    fn clone(&self) -> (r: Self)
        ensures
            r == *self,
    {
        FaceRecordInfo {
            id: self.id,
            username: self.username.clone(),
            group_id: self.group_id,
            label: self.label.clone(),
            created_at: self.created_at,
        }
    }
}

impl FaceRecordInfo {
    /// The name of the face's file: its id followed by `.face`.
    pub fn filename(&self) -> (r: String)
        ensures
            r@ == uuid_text(self.id) + ".face"@,
    {
        let mut name = uuid_string(self.id);
        name.append(".face");
        name
    }
}

/// The face store, rooted at a base directory. Each user has a directory
/// there holding `metadata.json` and a `groups` directory with one directory
/// per group.
pub struct FaceStorage {
    base_dir: String,
}

/// `base` joined with `part` as `Path::join` does on Unix: an absolute `part`
/// replaces `base`; otherwise a `/` goes between them unless `base` is empty
/// or already ends with one.
pub open spec fn path_join(base: Seq<char>, part: Seq<char>) -> Seq<char> {
    if part.len() > 0 && part[0] == '/' {
        part
    } else if base.len() == 0 || base.last() == '/' {
        base + part
    } else {
        base + "/"@ + part
    }
}

pub(crate) fn join_path(base: &str, part: &str) -> (r: String)
    ensures
        r@ == path_join(base@, part@),
{
    let pl = part.unicode_len();
    if pl > 0 && part.get_char(0) == '/' {
        return String::from_str(part);
    }
    let bl = base.unicode_len();
    let mut out = String::from_str(base);
    if bl > 0 && base.get_char(bl - 1) != '/' {
        out.append("/");
    }
    out.append(part);
    out
}

impl FaceStorage {
    /// The base directory.
    pub closed spec fn base(&self) -> Seq<char> {
        self.base_dir@
    }

    /// A store rooted at `base_dir` (the caller creates the directory).
    pub fn new(base_dir: &str) -> (r: FaceStorage)
        ensures
            r.base() == base_dir@,
    {
        FaceStorage { base_dir: String::from_str(base_dir) }
    }

    /// The user's directory.
    pub fn user_dir(&self, username: &str) -> (r: String)
        ensures
            r@ == path_join(self.base(), username@),
    {
        join_path(self.base_dir.as_str(), username)
    }

    /// The directory of the user's groups.
    pub fn groups_dir(&self, username: &str) -> (r: String)
        ensures
            r@ == path_join(path_join(self.base(), username@), "groups"@),
    {
        let u = self.user_dir(username);
        join_path(u.as_str(), "groups")
    }

    /// The directory of one group, named by the group id's text.
    pub fn group_dir(&self, username: &str, group_id: u128) -> (r: String)
        ensures
            r@ == path_join(path_join(path_join(self.base(), username@), "groups"@), uuid_text(group_id)),
    {
        let g = self.groups_dir(username);
        let id = uuid_string(group_id);
        join_path(g.as_str(), id.as_str())
    }

    /// The file of one face: `<face id>.face` in its group's directory.
    pub fn face_path(&self, username: &str, group_id: u128, id: u128) -> (r: String)
        ensures
            r@ == path_join(
                path_join(path_join(path_join(self.base(), username@), "groups"@), uuid_text(group_id)),
                uuid_text(id) + ".face"@,
            ),
    {
        let g = self.group_dir(username, group_id);
        let mut name = uuid_string(id);
        name.append(".face");
        join_path(g.as_str(), name.as_str())
    }

    /// The user's metadata file.
    pub fn metadata_path(&self, username: &str) -> (r: String)
        ensures
            r@ == path_join(path_join(self.base(), username@), "metadata.json"@),
    {
        let u = self.user_dir(username);
        join_path(u.as_str(), "metadata.json")
    }

    /// A group's metadata file.
    pub fn group_metadata_path(&self, username: &str, group_id: u128) -> (r: String)
        ensures
            r@ == path_join(
                path_join(path_join(path_join(self.base(), username@), "groups"@), uuid_text(group_id)),
                "metadata.json"@,
            ),
    {
        let g = self.group_dir(username, group_id);
        join_path(g.as_str(), "metadata.json")
    }

    /// Number of faces over all of a user's groups, given the outcome of
    /// reading the user's metadata.
    pub fn total_face_count(&self, metadata: Result<UserMetadata, Error>) -> (r: Result<usize, Error>)
        requires
            metadata matches Ok(m) ==> face_total(m.groups@) <= usize::MAX,
        ensures
            match metadata {
                Ok(m) => r == Ok::<usize, Error>(face_total(m.groups@) as usize),
                Err(e) => r == Err::<usize, Error>(e),
            },
    {
        match metadata {
            Ok(m) => Ok(m.total_face_count()),
            Err(e) => Err(e),
        }
    }

    /// Same as `total_face_count`.
    pub fn face_count(&self, metadata: Result<UserMetadata, Error>) -> (r: Result<usize, Error>)
        requires
            metadata matches Ok(m) ==> face_total(m.groups@) <= usize::MAX,
        ensures
            match metadata {
                Ok(m) => r == Ok::<usize, Error>(face_total(m.groups@) as usize),
                Err(e) => r == Err::<usize, Error>(e),
            },
    {
        self.total_face_count(metadata)
    }

    /// The user's groups, as their metadata read lists them.
    pub fn list_groups(&self, metadata: Result<UserMetadata, Error>) -> (r: Result<Vec<FaceGroupSummary>, Error>)
        ensures
            match metadata {
                Ok(m) => r == Ok::<Vec<FaceGroupSummary>, Error>(m.groups),
                Err(e) => r == Err::<Vec<FaceGroupSummary>, Error>(e),
            },
    {
        match metadata {
            Ok(m) => Ok(m.groups),
            Err(e) => Err(e),
        }
    }

    /// Whether the user has any face; a metadata read that failed counts as none.
    pub fn has_faces(&self, metadata: Result<UserMetadata, Error>) -> (r: bool)
        requires
            metadata matches Ok(m) ==> face_total(m.groups@) <= usize::MAX,
        ensures
            r == user_has_faces(metadata),
    {
        match self.total_face_count(metadata) {
            Ok(n) => n > 0,
            Err(_) => false,
        }
    }
}

// ---------------------------------------------------------------------------
// Searching by name

/// `i` is the first position whose string is `name`.
pub open spec fn is_first_string(s: Seq<String>, name: Seq<char>, i: int) -> bool {
    0 <= i < s.len() && s[i]@ == name && forall|j: int| 0 <= j < i ==> s[j]@ != name
}

/// First position of `name` in a list of strings.
pub open spec fn first_string_index(s: Seq<String>, name: Seq<char>) -> Option<int> {
    if exists|i: int| 0 <= i < s.len() && s[i]@ == name {
        Some(choose|i: int| is_first_string(s, name, i))
    } else {
        None
    }
}

/// The names of a list of groups.
pub open spec fn group_names(groups: Seq<FaceGroupSummary>) -> Seq<String> {
    groups.map_values(|g: FaceGroupSummary| g.name)
}

proof fn lemma_first_string(s: Seq<String>, name: Seq<char>, i: int)
    requires
        is_first_string(s, name, i),
    ensures
        first_string_index(s, name) == Some(i),
{
    assert(exists|k: int| is_first_string(s, name, k));
    let k = choose|k: int| is_first_string(s, name, k);
    if k < i {
        assert(s[k]@ != name);
    }
    if i < k {
        assert(s[i]@ != name);
    }
}

/// Index of the first string equal to `name`.
fn find_string(s: &Vec<String>, name: &str) -> (r: Option<usize>)
    ensures
        r matches Some(i) ==> first_string_index(s@, name@) == Some(i as int) && is_first_string(s@, name@, i as int),
        r is None ==> first_string_index(s@, name@) is None,
{
    let mut i: usize = 0;
    while i < s.len()
        invariant
            i <= s.len(),
            forall|j: int| 0 <= j < i ==> s@[j]@ != name@,
        decreases s.len() - i,
    {
        if str_eq(s[i].as_str(), name) {
            proof {
                lemma_first_string(s@, name@, i as int);
            }
            return Some(i);
        }
        i = i + 1;
    }
    None
}

/// Index of the first group named `name`.
fn find_group_named(groups: &Vec<FaceGroupSummary>, name: &str) -> (r: Option<usize>)
    ensures
        r matches Some(i) ==> first_string_index(group_names(groups@), name@) == Some(i as int)
            && is_first_string(group_names(groups@), name@, i as int) && i < groups@.len(),
        r is None ==> first_string_index(group_names(groups@), name@) is None,
{
    let mut i: usize = 0;
    while i < groups.len()
        invariant
            i <= groups.len(),
            forall|j: int| 0 <= j < i ==> group_names(groups@)[j]@ != name@,
        decreases groups.len() - i,
    {
        if str_eq(groups[i].name.as_str(), name) {
            proof {
                lemma_first_string(group_names(groups@), name@, i as int);
            }
            return Some(i);
        }
        i = i + 1;
    }
    None
}

// ---------------------------------------------------------------------------
// Messages

/// `Valid range: 0-{n-1}` for a non-empty list of `n` items.
pub open spec fn range_text(n: nat) -> Seq<char> {
    "Valid range: 0-"@ + decimal((n - 1) as nat)
}

pub open spec fn no_users_text() -> Seq<char> {
    "No registered users with saved face data"@
}

pub open spec fn bad_user_index_text(selector: Seq<char>, n: nat) -> Seq<char> {
    "Invalid user selector '"@ + selector + "'. "@ + range_text(n)
}

pub open spec fn unknown_user_text(selector: Seq<char>) -> Seq<char> {
    "User '"@ + selector + "' not found in registered face data"@
}

pub open spec fn no_groups_text(username: Seq<char>) -> Seq<char> {
    "User '"@ + username + "' has no face groups"@
}

pub open spec fn bad_group_index_text(selector: Seq<char>, username: Seq<char>, n: nat) -> Seq<char> {
    "Invalid group selector '"@ + selector + "' for user '"@ + username + "'. "@ + range_text(n)
}

pub open spec fn unknown_group_text(selector: Seq<char>) -> Seq<char> {
    "Face group '"@ + selector + "' not found"@
}

/// What resolving a user selector gives: the selected username, or the
/// text of the error.
pub open spec fn user_resolution(users: Seq<String>, selector: Seq<char>) -> Result<Seq<char>, Seq<char>> {
    if is_digit_run(selector) {
        if digits_value(selector) > usize::MAX {
            Err(bad_index_text("user selector"@, selector))
        } else if users.len() == 0 {
            Err(no_users_text())
        } else if digits_value(selector) >= users.len() {
            Err(bad_user_index_text(selector, users.len()))
        } else {
            Ok(users[digits_value(selector) as int]@)
        }
    } else if is_legacy_index(selector) {
        Err(legacy_index_text("user selector"@, selector))
    } else {
        match first_string_index(users, selector) {
            Some(_) => Ok(selector),
            None => Err(unknown_user_text(selector)),
        }
    }
}

/// `r` is the text `expected` names, or a storage error with its message.
pub open spec fn text_outcome(r: Result<String, Error>, expected: Result<Seq<char>, Seq<char>>) -> bool {
    match expected {
        Ok(v) => r matches Ok(u) && u@ == v,
        Err(m) => r matches Err(e) && is_storage_error(e, m),
    }
}

/// What resolving a group selector gives: the selected group, or the text
/// of the error.
pub open spec fn group_resolution(groups: Seq<FaceGroupSummary>, username: Seq<char>, selector: Seq<char>) -> Result<
    FaceGroupSummary,
    Seq<char>,
> {
    if groups.len() == 0 {
        Err(no_groups_text(username))
    } else if is_digit_run(selector) {
        if digits_value(selector) > usize::MAX {
            Err(bad_index_text("group selector"@, selector))
        } else if digits_value(selector) >= groups.len() {
            Err(bad_group_index_text(selector, username, groups.len()))
        } else {
            Ok(groups[digits_value(selector) as int])
        }
    } else if is_legacy_index(selector) {
        Err(legacy_index_text("group selector"@, selector))
    } else {
        match first_string_index(group_names(groups), selector) {
            Some(i) => Ok(groups[i]),
            None => Err(unknown_group_text(selector)),
        }
    }
}

/// `r` is the group `expected` names, or a storage error with its message.
pub open spec fn group_outcome(r: Result<FaceGroupSummary, Error>, expected: Result<FaceGroupSummary, Seq<char>>) -> bool {
    match expected {
        Ok(g) => r == Ok::<FaceGroupSummary, Error>(g),
        Err(m) => r matches Err(e) && is_storage_error(e, m),
    }
}

pub open spec fn group_exists_text(name: Seq<char>) -> Seq<char> {
    "Group '"@ + name + "' already exists"@
}

pub open spec fn group_id_missing_text(id: u128) -> Seq<char> {
    "Face group not found: "@ + uuid_text(id)
}

pub open spec fn no_default_group_text(username: Seq<char>) -> Seq<char> {
    "User '"@ + username + "' has no default face group"@
}

fn push_range(m: &mut String, n: usize)
    requires
        n > 0,
    ensures
        final(m)@ == old(m)@ + range_text(n as nat),
{
    m.append("Valid range: 0-");
    push_decimal(m, (n - 1) as u64);
    assert(final(m)@ =~= old(m)@ + range_text(n as nat));
}

fn storage_error(m: String) -> (r: Error)
    ensures
        is_storage_error(r, m@),
{
    Error::Storage(m)
}

// ---------------------------------------------------------------------------
// Selectors

impl FaceStorage {
    /// Resolves a user selector, an index into `users` or an exact username.
    pub fn resolve_user(&self, users: &Vec<String>, selector: &str) -> (r: Result<String, Error>)
        ensures
            text_outcome(r, user_resolution(users@, selector@)),
    {
        assert(users@.len() == users.len());
        match parse_index_selector(selector, "user selector") {
            Some(Err(e)) => Err(e),
            Some(Ok(index)) => {
                if users.len() == 0 {
                    return Err(storage_error(String::from_str("No registered users with saved face data")));
                }
                assert(users@.len() == users.len());
                if index < users.len() {
                    let u = users[index].clone();
                    assert(u == users@[index as int]);
                    Ok(u)
                } else {
                    let mut m = String::from_str("Invalid user selector '");
                    m.append(selector);
                    m.append("'. ");
                    push_range(&mut m, users.len());
                    assert(m@ =~= bad_user_index_text(selector@, users@.len()));
                    Err(storage_error(m))
                }
            },
            None => match find_string(users, selector) {
                Some(i) => {
                    let u = users[i].clone();
                    assert(u == users@[i as int]);
                    assert(is_first_string(users@, selector@, i as int));
                    Ok(u)
                },
                None => {
                    let mut m = String::from_str("User '");
                    m.append(selector);
                    m.append("' not found in registered face data");
                    assert(m@ =~= unknown_user_text(selector@));
                    Err(storage_error(m))
                },
            },
        }
    }
}

impl FaceStorage {
    /// Resolves a group selector (an index into the user's groups, or an exact name).
    pub fn resolve_group(&self, metadata: &UserMetadata, username: &str, selector: &str) -> (r: Result<
        FaceGroupSummary,
        Error,
    >)
        ensures
            group_outcome(r, group_resolution(metadata.groups@, username@, selector@)),
    {
        if metadata.groups.len() == 0 {
            let mut m = String::from_str("User '");
            m.append(username);
            m.append("' has no face groups");
            assert(m@ =~= no_groups_text(username@));
            return Err(storage_error(m));
        }
        match parse_index_selector(selector, "group selector") {
            Some(Err(e)) => Err(e),
            Some(Ok(index)) => {
                if index < metadata.groups.len() {
                    Ok(metadata.groups[index].clone())
                } else {
                    let mut m = String::from_str("Invalid group selector '");
                    m.append(selector);
                    m.append("' for user '");
                    m.append(username);
                    m.append("'. ");
                    push_range(&mut m, metadata.groups.len());
                    assert(m@ =~= bad_group_index_text(selector@, username@, metadata.groups@.len()));
                    Err(storage_error(m))
                }
            },
            None => match find_group_named(&metadata.groups, selector) {
                Some(i) => Ok(metadata.groups[i].clone()),
                None => {
                    let mut m = String::from_str("Face group '");
                    m.append(selector);
                    m.append("' not found");
                    assert(m@ =~= unknown_group_text(selector@));
                    Err(storage_error(m))
                },
            },
        }
    }
}

impl FaceStorage {
    /// The first group named exactly `name`.
    pub fn find_group_by_name(&self, metadata: &UserMetadata, name: &str) -> (r: Option<FaceGroupSummary>)
        ensures
            match first_string_index(group_names(metadata.groups@), name@) {
                Some(i) => r == Some(metadata.groups@[i]),
                None => r is None,
            },
    {
        match find_group_named(&metadata.groups, name) {
            Some(i) => Some(metadata.groups[i].clone()),
            None => None,
        }
    }
}

impl FaceStorage {
    /// The user's default group, without creating one.
    pub fn get_default_group(&self, metadata: &UserMetadata, username: &str) -> (r: Result<FaceGroupSummary, Error>)
        ensures
            match default_group_of(*metadata) {
                Some(g) => r == Ok::<FaceGroupSummary, Error>(g),
                None => r matches Err(e) && is_storage_error(e, no_default_group_text(username@)),
            },
    {
        match metadata.default_group() {
            Some(g) => Ok(g.clone()),
            None => {
                let mut m = String::from_str("User '");
                m.append(username);
                m.append("' has no default face group");
                assert(m@ =~= no_default_group_text(username@));
                Err(storage_error(m))
            },
        }
    }
}

impl FaceStorage {
    /// Makes the group with id `group_id` the user's default group.
    pub fn set_default_group(&self, metadata: &mut UserMetadata, group_id: u128) -> (r: Result<(), Error>)
        ensures
            group_ids(old(metadata).groups@).contains(group_id) ==> r is Ok
                && final(metadata).default_group_id == Some(group_id)
                && final(metadata).groups@ == old(metadata).groups@
                && final(metadata).username == old(metadata).username,
            !group_ids(old(metadata).groups@).contains(group_id) ==> (r matches Err(e)
                && is_storage_error(e, group_id_missing_text(group_id)))
                && *final(metadata) == *old(metadata),
    {
        match metadata.find_group_index(group_id) {
            Some(_) => {
                metadata.default_group_id = Some(group_id);
                Ok(())
            },
            None => {
                let mut m = String::from_str("Face group not found: ");
                m.append(uuid_string(group_id).as_str());
                assert(m@ =~= group_id_missing_text(group_id));
                Err(storage_error(m))
            },
        }
    }
}


// ---------------------------------------------------------------------------
// Groups

proof fn lemma_upsert_keeps_wf(m_groups: Seq<FaceGroupSummary>, g: FaceGroupSummary, d: Option<u128>)
    requires
        unique_group_ids(m_groups),
        d matches Some(x) ==> group_ids(m_groups).contains(x),
    ensures
        unique_group_ids(upserted(m_groups, g)),
        d matches Some(x) ==> group_ids(upserted(m_groups, g)).contains(x),
        group_ids(upserted(m_groups, g)).contains(g.id),
        upserted(m_groups, g).len() >= m_groups.len(),
{
    crate::models::lemma_first_index_some(group_ids(m_groups), g.id);
    let u = upserted(m_groups, g);
    match first_index_of(group_ids(m_groups), g.id) {
        Some(i) => {
            assert(group_ids(u) =~= group_ids(m_groups).update(i, g.id));
            assert(group_ids(u)[i] == g.id);
            if let Some(x) = d {
                let k = choose|k: int| 0 <= k < group_ids(m_groups).len() && group_ids(m_groups)[k] == x;
                assert(group_ids(u)[k] == x);
            }
        },
        None => {
            assert(group_ids(u) =~= group_ids(m_groups).push(g.id));
            assert(group_ids(u)[m_groups.len() as int] == g.id);
            assert forall|a: int, b: int| 0 <= a < b < u.len() implies u[a].id != u[b].id by {
                if b == m_groups.len() {
                    assert(group_ids(m_groups)[a] == u[a].id);
                }
            }
            if let Some(x) = d {
                let k = choose|k: int| 0 <= k < group_ids(m_groups).len() && group_ids(m_groups)[k] == x;
                assert(group_ids(u)[k] == x);
            }
        },
    }
}

proof fn lemma_identifier_trimmed(s: Seq<char>)
    requires
        is_identifier(s),
    ensures
        trimmed(s) == s,
{
    assert(leading_space_zero(s));
    let front = s.skip(0);
    assert(front =~= s);
    assert(trailing_space_zero(s));
    assert(front.take(front.len() as int) =~= s);
}

spec fn leading_space_zero(s: Seq<char>) -> bool {
    crate::text::leading_space(s) == 0
}

spec fn trailing_space_zero(s: Seq<char>) -> bool {
    crate::text::trailing_space(s) == 0
}

/// Message for a group name that is taken.
fn group_exists_error(name: &str) -> (r: Error)
    ensures
        is_storage_error(r, group_exists_text(name@)),
{
    let mut m = String::from_str("Group '");
    m.append(name);
    m.append("' already exists");
    assert(m@ =~= group_exists_text(name@));
    storage_error(m)
}

impl FaceStorage {
    /// Creates a group named `name` (trimmed) for the user whose metadata is given.
    /// On success the metadata lists the new group, which becomes the default when
    /// there was none; the group's own metadata is returned to be stored.
    pub fn create_group(&self, metadata: &mut UserMetadata, name: &str) -> (r: Result<FaceGroupMetadata, Error>)
        ensures
            r is Ok <==> is_identifier(trimmed(name@))
                && first_string_index(group_names(old(metadata).groups@), trimmed(name@)) is None,
            trimmed(name@).len() == 0 ==> (r matches Err(e) && is_storage_error(e, empty_name_text("Group name"@))),
            trimmed(name@).len() != 0 && !is_identifier(trimmed(name@)) ==> (r matches Err(e)
                && is_storage_error(e, invalid_name_text("Group name"@, trimmed(name@)))),
            is_identifier(trimmed(name@)) && first_string_index(group_names(old(metadata).groups@), trimmed(name@)) is Some
                ==> (r matches Err(e) && is_storage_error(e, group_exists_text(trimmed(name@)))),
            r is Err ==> *final(metadata) == *old(metadata),
            r matches Ok(g) ==> {
                &&& g.name@ == trimmed(name@)
                &&& g.face_ids@.len() == 0
                &&& final(metadata).groups@ == upserted(old(metadata).groups@, summary_of(g))
                &&& final(metadata).default_group_id == (match old(metadata).default_group_id {
                    Some(d) => Some(d),
                    None => Some(g.id),
                })
                &&& final(metadata).username == old(metadata).username
            },
            metadata_wf(*old(metadata)) ==> metadata_wf(*final(metadata)),
    {
        let t = trim(name);
        match validate_selector_name(t, "Group name") {
            Err(e) => return Err(e),
            Ok(()) => {},
        }
        if find_group_named(&metadata.groups, t).is_some() {
            return Err(group_exists_error(t));
        }
        let group = FaceGroupMetadata::new(t);
        let summary = group.summary();
        let ghost old_groups = metadata.groups@;
        let ghost old_default = metadata.default_group_id;
        proof {
            if metadata_wf(*metadata) {
                lemma_upsert_keeps_wf(old_groups, summary, old_default);
            }
            lemma_upsert_keeps_wf_ids(old_groups, summary);
        }
        metadata.upsert_group(summary);
        if metadata.default_group_id.is_none() {
            metadata.default_group_id = Some(group.id);
        }
        Ok(group)
    }
}

proof fn lemma_upsert_keeps_wf_ids(m_groups: Seq<FaceGroupSummary>, g: FaceGroupSummary)
    ensures
        group_ids(upserted(m_groups, g)).contains(g.id),
{
    crate::models::lemma_first_index_some(group_ids(m_groups), g.id);
    let u = upserted(m_groups, g);
    match first_index_of(group_ids(m_groups), g.id) {
        Some(i) => {
            assert(group_ids(u)[i] == g.id);
        },
        None => {
            assert(group_ids(u)[m_groups.len() as int] == g.id);
        },
    }
}

/// What `ensure_default_group` found or did.
#[derive(Debug)]
pub enum DefaultGroup {
    /// The user had no groups; this group was created and made the default.
    Created(FaceGroupMetadata),
    /// The default group already stood; nothing changed.
    Existing(FaceGroupSummary),
    /// The default id named no group; the first group became the default.
    Reassigned(FaceGroupSummary),
}

impl DefaultGroup {
    /// The summary of the group that is now the default.
    pub open spec fn summary_spec(self) -> FaceGroupSummary {
        match self {
            DefaultGroup::Created(g) => summary_of(g),
            DefaultGroup::Existing(s) => s,
            DefaultGroup::Reassigned(s) => s,
        }
    }
}

/// The user has groups and the default id names the default group: the
/// state in which making sure of the default group changes nothing.
pub open spec fn default_settled(m: UserMetadata) -> bool {
    &&& m.groups@.len() > 0
    &&& default_group_of(m) matches Some(g) && m.default_group_id == Some(g.id)
}

impl FaceStorage {
    /// Makes sure the user has a default group: creates one named after the user
    /// (or `default`) when there are no groups, else keeps the default group when
    /// its id is set and found, else makes the first group the default.
    pub fn ensure_default_group(&self, metadata: &mut UserMetadata, username: &str) -> (r: DefaultGroup)
        ensures
            old(metadata).groups@.len() == 0 ==> (r matches DefaultGroup::Created(g)
                && g.name@ == default_group_name(username@)
                && g.face_ids@.len() == 0
                && final(metadata).groups@ == seq![summary_of(g)]),
            default_settled(*old(metadata)) ==> r == DefaultGroup::Existing(
                default_group_of(*old(metadata))->Some_0) && *final(metadata) == *old(metadata),
            old(metadata).groups@.len() > 0 && !default_settled(*old(metadata)) ==> r == DefaultGroup::Reassigned(
                old(metadata).groups@[0]) && final(metadata).groups@ == old(metadata).groups@,
            !(r is Created) || metadata_wf(*old(metadata)) ==> final(metadata).default_group_id == Some(
                r.summary_spec().id),
            !(r is Created) || metadata_wf(*old(metadata)) ==> default_settled(*final(metadata)),
            default_group_of(*final(metadata)) == Some(r.summary_spec()),
            final(metadata).username == old(metadata).username,
            metadata_wf(*old(metadata)) ==> metadata_wf(*final(metadata)),
    {
        if metadata.groups.len() == 0 {
            let name = default_group_name_for_user(username);
            proof {
                reveal_strlit("default");
                assert(is_identifier("default"@));
                lemma_identifier_trimmed(name@);
            }
            let ghost before = *metadata;
            let created = self.create_group(metadata, name);
            match created {
                Ok(g) => {
                    proof {
                        crate::models::lemma_first_index_some(group_ids(before.groups@), g.id);
                        assert(upserted(before.groups@, summary_of(g)) =~= seq![summary_of(g)]);
                        assert(group_ids(metadata.groups@) =~= seq![g.id]);
                        crate::models::lemma_first_index(group_ids(metadata.groups@), g.id, 0);
                        crate::models::lemma_first_index_some(group_ids(metadata.groups@), metadata.default_group_id->Some_0);
                    }
                    return DefaultGroup::Created(g);
                },
                Err(_) => {
                    proof {
                        assert(false);
                    }
                    return DefaultGroup::Existing(FaceGroupSummary::new(name));
                },
            }
        }
        match metadata.default_group() {
            Some(g) => {
                if metadata.default_group_id == Some(g.id) {
                    return DefaultGroup::Existing(g.clone());
                }
            },
            None => {},
        }
        let first = metadata.groups[0].clone();
        metadata.default_group_id = Some(first.id);
        proof {
            crate::models::lemma_first_index(group_ids(metadata.groups@), first.id, 0);
        }
        DefaultGroup::Reassigned(first)
    }
}

/// What is left to do after a group was removed from the metadata.
#[derive(Debug)]
pub enum GroupRemoval {
    /// The user has no groups left; all of the user's data goes.
    UserEmptied,
    /// The metadata, as left, is to be written back.
    Saved,
}

impl FaceStorage {
    /// Removes the group with id `group_id` from the metadata. When groups remain
    /// and none is the default, the first becomes the default.
    pub fn delete_group(&self, metadata: &mut UserMetadata, group_id: u128) -> (r: Result<GroupRemoval, Error>)
        ensures
            !group_ids(old(metadata).groups@).contains(group_id) ==> (r matches Err(e)
                && is_storage_error(e, group_id_missing_text(group_id))) && *final(metadata) == *old(metadata),
            group_ids(old(metadata).groups@).contains(group_id) ==> r is Ok
                && (first_index_of(group_ids(old(metadata).groups@), group_id) matches Some(i)
                    && final(metadata).groups@ == old(metadata).groups@.remove(i)),
            r matches Ok(GroupRemoval::UserEmptied) ==> final(metadata).groups@.len() == 0,
            r matches Ok(GroupRemoval::Saved) ==> final(metadata).groups@.len() > 0
                && final(metadata).default_group_id is Some,
            r is Ok && final(metadata).groups@.len() > 0 && (old(metadata).default_group_id == Some(group_id)
                || old(metadata).default_group_id is None)
                ==> final(metadata).default_group_id == Some(final(metadata).groups@[0].id),
            r is Ok && old(metadata).default_group_id != Some(group_id)
                && old(metadata).default_group_id is Some
                ==> final(metadata).default_group_id == old(metadata).default_group_id,
            final(metadata).username == old(metadata).username,
            metadata_wf(*old(metadata)) ==> metadata_wf(*final(metadata)),
    {
        let ghost before = *metadata;
        if !metadata.remove_group(&group_id) {
            let mut m = String::from_str("Face group not found: ");
            m.append(uuid_string(group_id).as_str());
            assert(m@ =~= group_id_missing_text(group_id));
            return Err(storage_error(m));
        }
        proof {
            crate::models::lemma_first_index_some(group_ids(before.groups@), group_id);
            lemma_remove_keeps_wf(before, group_id, *metadata);
        }
        if metadata.groups.len() == 0 {
            return Ok(GroupRemoval::UserEmptied);
        }
        if metadata.default_group_id.is_none() {
            metadata.default_group_id = Some(metadata.groups[0].id);
            proof {
                assert(group_ids(metadata.groups@)[0] == metadata.groups@[0].id);
            }
        }
        Ok(GroupRemoval::Saved)
    }
}

proof fn lemma_remove_keeps_wf(before: UserMetadata, id: u128, after: UserMetadata)
    requires
        first_index_of(group_ids(before.groups@), id) matches Some(i)
            && after.groups@ == before.groups@.remove(i)
            && crate::models::is_first_index(group_ids(before.groups@), id, i),
        before.default_group_id == Some(id) ==> after.default_group_id == (
            if after.groups@.len() > 0 { Some(after.groups@[0].id) } else { None::<u128> }),
        before.default_group_id != Some(id) ==> after.default_group_id == before.default_group_id,
    ensures
        metadata_wf(before) ==> unique_group_ids(after.groups@)
            && (after.default_group_id matches Some(d) ==> group_ids(after.groups@).contains(d)),
{
    if metadata_wf(before) {
        let i = first_index_of(group_ids(before.groups@), id)->Some_0;
        let a = after.groups@;
        let b = before.groups@;
        assert forall|x: int, y: int| 0 <= x < y < a.len() implies a[x].id != a[y].id by {
            let bx = if x < i { x } else { x + 1 };
            let by_ = if y < i { y } else { y + 1 };
            assert(a[x] == b[bx]);
            assert(a[y] == b[by_]);
        }
        if let Some(d) = after.default_group_id {
            if before.default_group_id == Some(id) {
                assert(group_ids(a)[0] == d);
            } else {
                let k = choose|k: int| 0 <= k < group_ids(b).len() && group_ids(b)[k] == d;
                assert(k != i);
                let ak = if k < i { k } else { k - 1 };
                assert(a[ak] == b[k]);
                assert(group_ids(a)[ak] == d);
            }
        }
    }
}

// ---------------------------------------------------------------------------
// Faces

/// Some record carries the label `label`.
pub open spec fn has_label(faces: Seq<FaceRecordInfo>, label: Seq<char>) -> bool {
    exists|i: int| 0 <= i < faces.len() && faces[i].label@ == label
}

impl FaceStorage {
    /// Whether some record in the group carries the label `label`.
    pub fn face_label_exists(&self, faces: &Vec<FaceRecordInfo>, label: &str) -> (r: bool)
        ensures
            r == has_label(faces@, label@),
    {
        let mut i: usize = 0;
        while i < faces.len()
            invariant
                i <= faces.len(),
                forall|j: int| 0 <= j < i ==> faces@[j].label@ != label@,
            decreases faces.len() - i,
        {
            if str_eq(faces[i].label.as_str(), label) {
                return true;
            }
            i = i + 1;
        }
        false
    }
}

pub open spec fn label_taken_text(label: Seq<char>, group: Seq<char>) -> Seq<char> {
    "Face label '"@ + label + "' already exists in group '"@ + group + "'"@
}

impl FaceStorage {
    /// Adds `record` to `group` (whose current records are `existing`) and the
    /// group's summary to the user's metadata; refuses a label that is not an
    /// identifier or is already used in the group.
    pub fn add_face_record(
        &self,
        metadata: &mut UserMetadata,
        group: &mut FaceGroupMetadata,
        existing: &Vec<FaceRecordInfo>,
        record: &FaceRecordInfo,
    ) -> (r: Result<(), Error>)
        ensures
            r is Ok <==> is_identifier(record.label@) && !has_label(existing@, record.label@),
            record.label@.len() == 0 ==> (r matches Err(e) && is_storage_error(e, empty_name_text("Face label"@))),
            record.label@.len() != 0 && !is_identifier(record.label@) ==> (r matches Err(e)
                && is_storage_error(e, invalid_name_text("Face label"@, record.label@))),
            is_identifier(record.label@) && has_label(existing@, record.label@) ==> (r matches Err(e)
                && is_storage_error(e, label_taken_text(record.label@, old(group).name@))),
            r is Err ==> *final(metadata) == *old(metadata) && *final(group) == *old(group),
            r is Ok ==> {
                &&& final(group).face_ids@ == old(group).face_ids@.push(record.id)
                &&& final(group).id == old(group).id
                &&& final(group).name == old(group).name
                &&& final(group).created_at == old(group).created_at
                &&& final(metadata).groups@ == upserted(old(metadata).groups@, summary_of(*final(group)))
                &&& final(metadata).default_group_id == (match old(metadata).default_group_id {
                    Some(d) => Some(d),
                    None => Some(old(group).id),
                })
                &&& final(metadata).username == old(metadata).username
            },
            metadata_wf(*old(metadata)) ==> metadata_wf(*final(metadata)),
    {
        match validate_selector_name(record.label.as_str(), "Face label") {
            Err(e) => return Err(e),
            Ok(()) => {},
        }
        if self.face_label_exists(existing, record.label.as_str()) {
            let mut m = String::from_str("Face label '");
            m.append(record.label.as_str());
            m.append("' already exists in group '");
            m.append(group.name.as_str());
            m.append("'");
            assert(m@ =~= label_taken_text(record.label@, group.name@));
            return Err(storage_error(m));
        }
        group.add_face(record.id);
        let summary = group.summary();
        proof {
            if metadata_wf(*metadata) {
                lemma_upsert_keeps_wf(metadata.groups@, summary, metadata.default_group_id);
            }
            lemma_upsert_keeps_wf_ids(metadata.groups@, summary);
        }
        metadata.upsert_group(summary);
        if metadata.default_group_id.is_none() {
            metadata.default_group_id = Some(group.id);
        }
        Ok(())
    }
}


/// The label `face_{k}`.
pub open spec fn numbered_label(k: nat) -> Seq<char> {
    "face_"@ + decimal(k)
}

/// `l` is the first of `face_1`, `face_2`, ... that no record carries.
pub open spec fn is_first_free_label(faces: Seq<FaceRecordInfo>, l: Seq<char>) -> bool {
    exists|k: nat| {
        &&& k >= 1
        &&& l == numbered_label(k)
        &&& !has_label(faces, numbered_label(k))
        &&& forall|j: nat| 1 <= j < k ==> has_label(faces, #[trigger] numbered_label(j))
    }
}

proof fn lemma_digit_roundtrip(d: nat)
    requires
        d < 10,
    ensures
        crate::text::digit_value(crate::text::digit_char(d)) == d,
{
    if d == 0 { assert(crate::text::digit_value('0') == 0); }
    else if d == 1 { assert(crate::text::digit_value('1') == 1); }
    else if d == 2 { assert(crate::text::digit_value('2') == 2); }
    else if d == 3 { assert(crate::text::digit_value('3') == 3); }
    else if d == 4 { assert(crate::text::digit_value('4') == 4); }
    else if d == 5 { assert(crate::text::digit_value('5') == 5); }
    else if d == 6 { assert(crate::text::digit_value('6') == 6); }
    else if d == 7 { assert(crate::text::digit_value('7') == 7); }
    else if d == 8 { assert(crate::text::digit_value('8') == 8); }
    else { assert(crate::text::digit_value('9') == 9); }
}

proof fn lemma_decimal_value(n: nat)
    ensures
        digits_value(decimal(n)) == n,
        decimal(n).len() > 0,
    decreases n,
{
    if n < 10 {
        let d = decimal(n);
        assert(d.drop_last() =~= Seq::<char>::empty());
        assert(digits_value(Seq::<char>::empty()) == 0);
        lemma_digit_roundtrip(n);
        assert(d.last() == crate::text::digit_char(n));
    } else {
        lemma_decimal_value(n / 10);
        let d = decimal(n);
        assert(d.drop_last() =~= decimal(n / 10));
        lemma_digit_roundtrip(n % 10);
        assert(d.last() == crate::text::digit_char(n % 10));
    }
}

proof fn lemma_numbered_label_injective(a: nat, b: nat)
    requires
        numbered_label(a) == numbered_label(b),
    ensures
        a == b,
{
    reveal_strlit("face_");
    assert(numbered_label(a).skip(5) =~= decimal(a));
    assert(numbered_label(b).skip(5) =~= decimal(b));
    lemma_decimal_value(a);
    lemma_decimal_value(b);
}

/// Position of a record labelled `face_{j}` (any one of them).
spec fn label_position(faces: Seq<FaceRecordInfo>, j: int) -> int {
    choose|p: int| 0 <= p < faces.len() && faces[p].label@ == numbered_label(j as nat)
}

proof fn lemma_labels_bound(faces: Seq<FaceRecordInfo>, k: int)
    requires
        k >= 1,
        forall|j: nat| 1 <= j <= k ==> #[trigger] has_label(faces, numbered_label(j)),
    ensures
        k <= faces.len(),
{
    let x = vstd::set_lib::set_int_range(1, k + 1);
    let f = |j: int| label_position(faces, j);
    vstd::set_lib::lemma_int_range(1, k + 1);
    assert forall|j: int| 1 <= j <= k implies 0 <= #[trigger] f(j) < faces.len()
        && faces[f(j)].label@ == numbered_label(j as nat) by {
        assert(has_label(faces, numbered_label(j as nat)));
    }
    assert forall|j: int| 1 <= j <= k implies has_label(faces, #[trigger] numbered_label(j as nat)) by {
        let jn = j as nat;
        assert(has_label(faces, numbered_label(jn)));
    }
    assert(vstd::relations::injective_on(f, x)) by {
        assert forall|a: int, b: int| x.contains(a) && x.contains(b) && #[trigger] f(a) == #[trigger] f(b)
            implies a == b by {
            assert(faces[f(a)].label@ == numbered_label(a as nat));
            assert(faces[f(b)].label@ == numbered_label(b as nat));
            lemma_numbered_label_injective(a as nat, b as nat);
        }
    }
    let y = x.map(f);
    vstd::set_lib::lemma_map_size(x, y, f);
    let range = vstd::set_lib::set_int_range(0, faces.len() as int);
    vstd::set_lib::lemma_int_range(0, faces.len() as int);
    assert(y.subset_of(range)) by {
        assert forall|p: int| y.contains(p) implies range.contains(p) by {
            let j = choose|j: int| x.contains(j) && f(j) == p;
        }
    }
    vstd::set_lib::lemma_len_subset(y, range);
}

impl FaceStorage {
    /// The first label `face_1`, `face_2`, ... that no record of the group uses.
    pub fn next_available_face_label(&self, faces: &Vec<FaceRecordInfo>) -> (r: String)
        requires
            faces@.len() < usize::MAX,
        ensures
            is_first_free_label(faces@, r@),
    {
        let mut index: usize = 1;
        loop
            invariant
                faces@.len() < usize::MAX,
                1 <= index <= faces@.len() + 1,
                forall|j: nat| 1 <= j < index ==> #[trigger] has_label(faces@, numbered_label(j)),
            decreases faces@.len() + 1 - index,
        {
            let mut candidate = String::from_str("face_");
            push_decimal(&mut candidate, index as u64);
            assert(candidate@ == numbered_label(index as nat));
            if !self.face_label_exists(faces, candidate.as_str()) {
                return candidate;
            }
            proof {
                lemma_labels_bound(faces@, index as int);
            }
            index = index + 1;
        }
    }
}

// ---------------------------------------------------------------------------
// Face selectors

/// The ids of a list of records.
pub open spec fn record_ids(s: Seq<FaceRecordInfo>) -> Seq<u128> {
    s.map_values(|f: FaceRecordInfo| f.id)
}

/// Appends `f` unless a record with its id is already listed.
pub open spec fn add_if_unseen(cur: Seq<FaceRecordInfo>, f: FaceRecordInfo) -> Seq<FaceRecordInfo> {
    if record_ids(cur).contains(f.id) { cur } else { cur.push(f) }
}

/// Appends each of `cands`, in order, whose id is not listed yet.
pub open spec fn add_unseen(cur: Seq<FaceRecordInfo>, cands: Seq<FaceRecordInfo>) -> Seq<FaceRecordInfo>
    decreases cands.len(),
{
    if cands.len() == 0 {
        cur
    } else {
        add_unseen(add_if_unseen(cur, cands[0]), cands.drop_first())
    }
}

/// The predicate "carries the label `label`".
pub open spec fn label_is(label: Seq<char>) -> spec_fn(FaceRecordInfo) -> bool {
    |f: FaceRecordInfo| f.label@ == label
}

/// The records that carry the label `label`, in order.
pub open spec fn with_label(faces: Seq<FaceRecordInfo>, label: Seq<char>) -> Seq<FaceRecordInfo> {
    faces.filter(label_is(label))
}

pub open spec fn no_faces_text(group: Seq<char>) -> Seq<char> {
    "Group '"@ + group + "' has no faces"@
}

pub open spec fn bad_face_index_text(selector: Seq<char>, group: Seq<char>, n: nat) -> Seq<char> {
    "Invalid face selector '"@ + selector + "' in group '"@ + group + "'. "@ + range_text(n)
}

pub open spec fn unknown_label_text(selector: Seq<char>, group: Seq<char>) -> Seq<char> {
    "No faces with label '"@ + selector + "' in group '"@ + group + "'"@
}

/// One face selector applied to what has been matched so far: an index adds
/// that record, a label adds every record with that label; records already
/// matched are not added twice. `Err` holds the message of the refusal.
pub open spec fn resolve_one(
    faces: Seq<FaceRecordInfo>,
    group: Seq<char>,
    cur: Seq<FaceRecordInfo>,
    selector: Seq<char>,
) -> Result<Seq<FaceRecordInfo>, Seq<char>> {
    if is_digit_run(selector) {
        if digits_value(selector) > usize::MAX {
            Err(bad_index_text("face selector"@, selector))
        } else if faces.len() == 0 {
            Err(no_faces_text(group))
        } else if digits_value(selector) >= faces.len() {
            Err(bad_face_index_text(selector, group, faces.len()))
        } else {
            Ok(add_if_unseen(cur, faces[digits_value(selector) as int]))
        }
    } else if is_legacy_index(selector) {
        Err(legacy_index_text("face selector"@, selector))
    } else if with_label(faces, selector).len() == 0 {
        Err(unknown_label_text(selector, group))
    } else {
        Ok(add_unseen(cur, with_label(faces, selector)))
    }
}

/// All selectors applied in order, from `cur`; the first refusal stops.
pub open spec fn resolve_from(
    faces: Seq<FaceRecordInfo>,
    group: Seq<char>,
    cur: Seq<FaceRecordInfo>,
    selectors: Seq<String>,
) -> Result<Seq<FaceRecordInfo>, Seq<char>>
    decreases selectors.len(),
{
    if selectors.len() == 0 {
        Ok(cur)
    } else {
        match resolve_one(faces, group, cur, selectors[0]@) {
            Err(m) => Err(m),
            Ok(next) => resolve_from(faces, group, next, selectors.drop_first()),
        }
    }
}

/// Ids are pairwise distinct.
pub open spec fn unique_records(s: Seq<FaceRecordInfo>) -> bool {
    forall|i: int, j: int| 0 <= i < j < s.len() ==> s[i].id != s[j].id
}

/// Every record of `s` is a record of `faces`.
pub open spec fn records_within(s: Seq<FaceRecordInfo>, faces: Seq<FaceRecordInfo>) -> bool {
    forall|i: int| 0 <= i < s.len() ==> faces.contains(#[trigger] s[i])
}

proof fn lemma_add_if_unseen(cur: Seq<FaceRecordInfo>, f: FaceRecordInfo, faces: Seq<FaceRecordInfo>)
    requires
        unique_records(cur),
        records_within(cur, faces),
        faces.contains(f),
    ensures
        unique_records(add_if_unseen(cur, f)),
        records_within(add_if_unseen(cur, f), faces),
{
    if !record_ids(cur).contains(f.id) {
        let n = cur.push(f);
        assert forall|i: int, j: int| 0 <= i < j < n.len() implies n[i].id != n[j].id by {
            if j == cur.len() {
                assert(record_ids(cur)[i] == cur[i].id);
            }
        }
        assert forall|i: int| 0 <= i < n.len() implies faces.contains(#[trigger] n[i]) by {
            if i < cur.len() {
                assert(n[i] == cur[i]);
            }
        }
    }
}

proof fn lemma_add_unseen(cur: Seq<FaceRecordInfo>, cands: Seq<FaceRecordInfo>, faces: Seq<FaceRecordInfo>)
    requires
        unique_records(cur),
        records_within(cur, faces),
        records_within(cands, faces),
    ensures
        unique_records(add_unseen(cur, cands)),
        records_within(add_unseen(cur, cands), faces),
    decreases cands.len(),
{
    if cands.len() > 0 {
        assert(faces.contains(cands[0]));
        lemma_add_if_unseen(cur, cands[0], faces);
        assert forall|i: int| 0 <= i < cands.drop_first().len() implies faces.contains(#[trigger] cands.drop_first()[i]) by {
            assert(cands.drop_first()[i] == cands[i + 1]);
        }
        lemma_add_unseen(add_if_unseen(cur, cands[0]), cands.drop_first(), faces);
    }
}

proof fn lemma_with_label_within(faces: Seq<FaceRecordInfo>, label: Seq<char>)
    ensures
        records_within(with_label(faces, label), faces),
{
    let p = label_is(label);
    assert forall|i: int| 0 <= i < with_label(faces, label).len()
        implies faces.contains(#[trigger] with_label(faces, label)[i]) by {
        faces.lemma_filter_contains_rev(p, with_label(faces, label)[i]);
        assert(with_label(faces, label).contains(with_label(faces, label)[i]));
    }
}

proof fn lemma_resolve_from(
    faces: Seq<FaceRecordInfo>,
    group: Seq<char>,
    cur: Seq<FaceRecordInfo>,
    selectors: Seq<String>,
)
    requires
        unique_records(cur),
        records_within(cur, faces),
    ensures
        resolve_from(faces, group, cur, selectors) matches Ok(v) ==> unique_records(v) && records_within(v, faces),
    decreases selectors.len(),
{
    if selectors.len() > 0 {
        let s = selectors[0]@;
        match resolve_one(faces, group, cur, s) {
            Err(_) => {},
            Ok(next) => {
                if is_digit_run(s) {
                    assert(faces.contains(faces[digits_value(s) as int]));
                    lemma_add_if_unseen(cur, faces[digits_value(s) as int], faces);
                } else {
                    lemma_with_label_within(faces, s);
                    lemma_add_unseen(cur, with_label(faces, s), faces);
                }
                lemma_resolve_from(faces, group, next, selectors.drop_first());
            },
        }
    }
}

/// Whether a record with id `id` is listed.
fn contains_record_id(cur: &Vec<FaceRecordInfo>, id: u128) -> (r: bool)
    ensures
        r == record_ids(cur@).contains(id),
{
    let mut i: usize = 0;
    while i < cur.len()
        invariant
            i <= cur.len(),
            forall|j: int| 0 <= j < i ==> cur@[j].id != id,
        decreases cur.len() - i,
    {
        if cur[i].id == id {
            assert(record_ids(cur@)[i as int] == id);
            return true;
        }
        i = i + 1;
    }
    assert(!record_ids(cur@).contains(id)) by {
        if record_ids(cur@).contains(id) {
            let k = choose|k: int| 0 <= k < record_ids(cur@).len() && record_ids(cur@)[k] == id;
            assert(cur@[k].id == id);
        }
    }
    false
}

fn push_if_unseen(cur: &mut Vec<FaceRecordInfo>, f: FaceRecordInfo)
    ensures
        final(cur)@ == add_if_unseen(old(cur)@, f),
{
    if !contains_record_id(cur, f.id) {
        cur.push(f);
    }
}

/// The records of `faces` that carry the label `label`.
fn records_with_label(faces: &Vec<FaceRecordInfo>, label: &str) -> (r: Vec<FaceRecordInfo>)
    ensures
        r@ == with_label(faces@, label@),
{
    let ghost p = label_is(label@);
    let mut out: Vec<FaceRecordInfo> = Vec::new();
    let mut i: usize = 0;
    while i < faces.len()
        invariant
            i <= faces.len(),
            p == label_is(label@),
            out@ == faces@.take(i as int).filter(p),
        decreases faces.len() - i,
    {
        reveal(Seq::filter);
        assert(faces@.take(i + 1).drop_last() =~= faces@.take(i as int));
        assert(faces@.take(i + 1).last() == faces@[i as int]);
        assert(p(faces@[i as int]) == (faces@[i as int].label@ == label@));
        assert(faces@.take(i + 1).len() > 0);
        if str_eq(faces[i].label.as_str(), label) {
            out.push(faces[i].clone());
        }
        assert(out@ == faces@.take(i + 1).filter(p));
        i = i + 1;
    }
    assert(faces@.take(faces.len() as int) =~= faces@);
    out
}

impl FaceStorage {
    /// Resolves face selectors (indexes or exact labels) within a group whose
    /// records are `faces` (in their listing order) and whose name is `group_name`.
    /// Each record is returned once, in the order selectors first reached it.
    pub fn resolve_faces_in_group(
        &self,
        group_name: &str,
        faces: &Vec<FaceRecordInfo>,
        selectors: &Vec<String>,
    ) -> (r: Result<Vec<FaceRecordInfo>, Error>)
        ensures
            match resolve_from(faces@, group_name@, Seq::empty(), selectors@) {
                Ok(v) => r matches Ok(x) && x@ == v,
                Err(m) => r matches Err(e) && is_storage_error(e, m),
            },
            r matches Ok(x) ==> unique_records(x@) && records_within(x@, faces@),
    {
        let mut cur: Vec<FaceRecordInfo> = Vec::new();
        let mut i: usize = 0;
        let ghost target = resolve_from(faces@, group_name@, Seq::empty(), selectors@);
        proof {
            assert(selectors@.skip(0) =~= selectors@);
            lemma_resolve_from(faces@, group_name@, Seq::empty(), selectors@);
        }
        while i < selectors.len()
            invariant
                i <= selectors.len(),
                resolve_from(faces@, group_name@, cur@, selectors@.skip(i as int)) == target,
                target == resolve_from(faces@, group_name@, Seq::empty(), selectors@),
            decreases selectors.len() - i,
        {
            let selector = selectors[i].as_str();
            let ghost sk = selectors@.skip(i as int);
            assert(sk[0] == selectors@[i as int]);
            assert(sk.drop_first() =~= selectors@.skip(i + 1));
            match parse_index_selector(selector, "face selector") {
                Some(Err(e)) => {
                    assert(sk.len() > 0);
                    assert(resolve_one(faces@, group_name@, cur@, selector@) is Err);
                    assert(resolve_from(faces@, group_name@, cur@, sk) == resolve_one(faces@, group_name@, cur@, selector@));
                    return Err(e);
                },
                Some(Ok(index)) => {
                    if faces.len() == 0 {
                        assert(resolve_one(faces@, group_name@, cur@, selector@) == Err::<Seq<FaceRecordInfo>, Seq<char>>(no_faces_text(group_name@)));
                        let mut m = String::from_str("Group '");
                        m.append(group_name);
                        m.append("' has no faces");
                        assert(m@ =~= no_faces_text(group_name@));
                        return Err(storage_error(m));
                    }
                    if index >= faces.len() {
                        let mut m = String::from_str("Invalid face selector '");
                        m.append(selector);
                        m.append("' in group '");
                        m.append(group_name);
                        m.append("'. ");
                        push_range(&mut m, faces.len());
                        assert(m@ =~= bad_face_index_text(selector@, group_name@, faces@.len()));
                        return Err(storage_error(m));
                    }
                    push_if_unseen(&mut cur, faces[index].clone());
                },
                None => {
                    let matches = records_with_label(faces, selector);
                    if matches.len() == 0 {
                        let mut m = String::from_str("No faces with label '");
                        m.append(selector);
                        m.append("' in group '");
                        m.append(group_name);
                        m.append("'");
                        assert(m@ =~= unknown_label_text(selector@, group_name@));
                        return Err(storage_error(m));
                    }
                    let ghost before = cur@;
                    let mut k: usize = 0;
                    assert(matches@.skip(0) =~= matches@);
                    while k < matches.len()
                        invariant
                            k <= matches.len(),
                            add_unseen(cur@, matches@.skip(k as int)) == add_unseen(before, matches@),
                        decreases matches.len() - k,
                    {
                        assert(matches@.skip(k as int)[0] == matches@[k as int]);
                        assert(matches@.skip(k as int).drop_first() =~= matches@.skip(k + 1));
                        push_if_unseen(&mut cur, matches[k].clone());
                        k = k + 1;
                    }
                    assert(matches@.skip(k as int) =~= Seq::<FaceRecordInfo>::empty());
                },
            }
            i = i + 1;
        }
        assert(selectors@.skip(i as int) =~= Seq::<String>::empty());
        Ok(cur)
    }
}


// ---------------------------------------------------------------------------
// Deleting faces

/// `rest` appended to `acc`, leaving out ids already present (first occurrences kept).
pub open spec fn dedup_into(acc: Seq<u128>, rest: Seq<u128>) -> Seq<u128>
    decreases rest.len(),
{
    if rest.len() == 0 {
        acc
    } else {
        dedup_into(if acc.contains(rest[0]) { acc } else { acc.push(rest[0]) }, rest.drop_first())
    }
}

/// `ids` without the first occurrence of `id`.
pub open spec fn remove_first_of(ids: Seq<u128>, id: u128) -> Seq<u128> {
    match first_index_of(ids, id) {
        Some(i) => ids.remove(i),
        None => ids,
    }
}

/// Each of `ds` removed in turn (first occurrence), counting those found.
pub open spec fn removal_from(ids: Seq<u128>, count: nat, ds: Seq<u128>) -> (Seq<u128>, nat)
    decreases ds.len(),
{
    if ds.len() == 0 {
        (ids, count)
    } else {
        let c = if ids.contains(ds[0]) { count + 1 } else { count };
        removal_from(remove_first_of(ids, ds[0]), c, ds.drop_first())
    }
}

/// Ids are pairwise distinct.
pub open spec fn unique_ids(s: Seq<u128>) -> bool {
    forall|i: int, j: int| 0 <= i < j < s.len() ==> s[i] != s[j]
}

proof fn lemma_remove_first(ids: Seq<u128>, d: u128)
    ensures
        forall|x: u128| #[trigger] remove_first_of(ids, d).contains(x) ==> ids.contains(x),
        forall|x: u128| x != d && ids.contains(x) ==> #[trigger] remove_first_of(ids, d).contains(x),
        unique_ids(ids) ==> unique_ids(remove_first_of(ids, d)) && !remove_first_of(ids, d).contains(d),
{
    crate::models::lemma_first_index_some(ids, d);
    match first_index_of(ids, d) {
        None => {},
        Some(i) => {
            let r = ids.remove(i);
            assert forall|x: u128| #[trigger] r.contains(x) implies ids.contains(x) by {
                let k = choose|k: int| 0 <= k < r.len() && r[k] == x;
                let kk = if k < i { k } else { k + 1 };
                assert(ids[kk] == x);
            }
            assert forall|x: u128| x != d && ids.contains(x) implies #[trigger] r.contains(x) by {
                let k = choose|k: int| 0 <= k < ids.len() && ids[k] == x;
                assert(k != i);
                let kk = if k < i { k } else { k - 1 };
                assert(r[kk] == x);
            }
            if unique_ids(ids) {
                assert forall|a: int, b: int| 0 <= a < b < r.len() implies r[a] != r[b] by {
                    let aa = if a < i { a } else { a + 1 };
                    let bb = if b < i { b } else { b + 1 };
                    assert(r[a] == ids[aa]);
                    assert(r[b] == ids[bb]);
                }
                if r.contains(d) {
                    let k = choose|k: int| 0 <= k < r.len() && r[k] == d;
                    let kk = if k < i { k } else { k + 1 };
                    assert(ids[kk] == d);
                }
            }
        },
    }
}

proof fn lemma_removal(ids: Seq<u128>, count: nat, ds: Seq<u128>)
    ensures
        forall|x: u128| #[trigger] removal_from(ids, count, ds).0.contains(x) ==> ids.contains(x),
        forall|x: u128| !ds.contains(x) && ids.contains(x) ==> #[trigger] removal_from(ids, count, ds).0.contains(x),
        unique_ids(ids) ==> forall|x: u128| ds.contains(x) ==> !#[trigger] removal_from(ids, count, ds).0.contains(x),
        removal_from(ids, count, ds).1 <= count + ds.len(),
    decreases ds.len(),
{
    if ds.len() > 0 {
        let d = ds[0];
        let next = remove_first_of(ids, d);
        let c = if ids.contains(d) { count + 1 } else { count };
        lemma_remove_first(ids, d);
        lemma_removal(next, c, ds.drop_first());
        let res = removal_from(ids, count, ds);
        assert(res == removal_from(next, c, ds.drop_first()));
        assert forall|x: u128| !ds.contains(x) && ids.contains(x) implies #[trigger] res.0.contains(x) by {
            assert(x != d);
            assert(!ds.drop_first().contains(x)) by {
                if ds.drop_first().contains(x) {
                    let k = choose|k: int| 0 <= k < ds.drop_first().len() && ds.drop_first()[k] == x;
                    assert(ds[k + 1] == x);
                }
            }
        }
        if unique_ids(ids) {
            assert forall|x: u128| ds.contains(x) implies !#[trigger] res.0.contains(x) by {
                if x == d {
                    assert(!next.contains(d));
                } else {
                    let k = choose|k: int| 0 <= k < ds.len() && ds[k] == x;
                    assert(ds.drop_first()[k - 1] == x);
                }
            }
        }
    }
}

proof fn lemma_dedup(acc: Seq<u128>, rest: Seq<u128>)
    ensures
        forall|x: u128| #[trigger] dedup_into(acc, rest).contains(x) <==> acc.contains(x) || rest.contains(x),
        dedup_into(acc, rest).len() <= acc.len() + rest.len(),
    decreases rest.len(),
{
    if rest.len() > 0 {
        let next = if acc.contains(rest[0]) { acc } else { acc.push(rest[0]) };
        lemma_dedup(next, rest.drop_first());
        assert forall|x: u128| #[trigger] dedup_into(acc, rest).contains(x) <==> acc.contains(x) || rest.contains(x) by {
            if rest.contains(x) && x != rest[0] {
                let k = choose|k: int| 0 <= k < rest.len() && rest[k] == x;
                assert(rest.drop_first()[k - 1] == x);
            }
            if rest.drop_first().contains(x) {
                let k = choose|k: int| 0 <= k < rest.drop_first().len() && rest.drop_first()[k] == x;
                assert(rest[k + 1] == x);
            }
            if next.contains(x) && !acc.contains(x) {
                let k = choose|k: int| 0 <= k < next.len() && next[k] == x;
                assert(k == acc.len());
            }
            if acc.contains(x) {
                let k = choose|k: int| 0 <= k < acc.len() && acc[k] == x;
                assert(next[k] == x);
            }
            if x == rest[0] && !acc.contains(x) {
                assert(next[acc.len() as int] == x);
            }
        }
    }
}

fn contains_id(ids: &Vec<u128>, id: u128) -> (r: bool)
    ensures
        r == ids@.contains(id),
{
    let mut i: usize = 0;
    while i < ids.len()
        invariant
            i <= ids.len(),
            forall|j: int| 0 <= j < i ==> ids@[j] != id,
        decreases ids.len() - i,
    {
        if ids[i] == id {
            return true;
        }
        i = i + 1;
    }
    false
}

impl FaceStorage {
    /// Removes the given face ids from the group (each distinct id once, its first
    /// occurrence). Gives the number of ids that were found and removed, and the
    /// distinct requested ids, in first-request order (whose files go too).
    pub fn delete_faces(&self, group: &mut FaceGroupMetadata, face_ids: &Vec<u128>) -> (r: (usize, Vec<u128>))
        ensures
            r.1@ == dedup_into(Seq::empty(), face_ids@),
            (final(group).face_ids@, r.0 as nat) == removal_from(old(group).face_ids@, 0, r.1@),
            final(group).id == old(group).id,
            final(group).name == old(group).name,
            final(group).created_at == old(group).created_at,
            forall|x: u128| #[trigger] final(group).face_ids@.contains(x) ==> old(group).face_ids@.contains(x),
            forall|x: u128| !face_ids@.contains(x) && old(group).face_ids@.contains(x)
                ==> #[trigger] final(group).face_ids@.contains(x),
            unique_ids(old(group).face_ids@) ==> forall|x: u128| face_ids@.contains(x)
                ==> !#[trigger] final(group).face_ids@.contains(x),
    {
        let mut distinct: Vec<u128> = Vec::new();
        let mut i: usize = 0;
        assert(face_ids@.skip(0) =~= face_ids@);
        while i < face_ids.len()
            invariant
                i <= face_ids.len(),
                dedup_into(distinct@, face_ids@.skip(i as int)) == dedup_into(Seq::empty(), face_ids@),
                distinct@.len() <= i,
            decreases face_ids.len() - i,
        {
            assert(face_ids@.skip(i as int)[0] == face_ids@[i as int]);
            assert(face_ids@.skip(i as int).drop_first() =~= face_ids@.skip(i + 1));
            if !contains_id(&distinct, face_ids[i]) {
                distinct.push(face_ids[i]);
            }
            i = i + 1;
        }
        assert(face_ids@.skip(i as int) =~= Seq::<u128>::empty());
        let ghost start = group.face_ids@;
        let mut deleted: usize = 0;
        let mut k: usize = 0;
        assert(distinct@.skip(0) =~= distinct@);
        while k < distinct.len()
            invariant
                k <= distinct.len(),
                distinct@.len() <= face_ids@.len(),
                deleted <= k,
                removal_from(group.face_ids@, deleted as nat, distinct@.skip(k as int)) == removal_from(start, 0, distinct@),
                group.id == old(group).id,
                group.name == old(group).name,
                group.created_at == old(group).created_at,
            decreases distinct.len() - k,
        {
            let d = distinct[k];
            assert(distinct@.skip(k as int)[0] == d);
            assert(distinct@.skip(k as int).drop_first() =~= distinct@.skip(k + 1));
            let ghost before = group.face_ids@;
            let removed = group.remove_face(&d);
            proof {
                crate::models::lemma_first_index_some(before, d);
            }
            if removed {
                deleted = deleted + 1;
            }
            k = k + 1;
        }
        assert(distinct@.skip(k as int) =~= Seq::<u128>::empty());
        proof {
            lemma_removal(start, 0, distinct@);
            lemma_dedup(Seq::empty(), face_ids@);
            assert forall|x: u128| #[trigger] group.face_ids@.contains(x) implies start.contains(x) by {
                assert(removal_from(start, 0, distinct@).0.contains(x));
            }
            assert forall|x: u128| !face_ids@.contains(x) && start.contains(x)
                implies #[trigger] group.face_ids@.contains(x) by {
                assert(!dedup_into(Seq::empty(), face_ids@).contains(x));
                assert(removal_from(start, 0, distinct@).0.contains(x));
            }
            if unique_ids(start) {
                assert forall|x: u128| face_ids@.contains(x) implies !#[trigger] group.face_ids@.contains(x) by {
                    assert(dedup_into(Seq::empty(), face_ids@).contains(x));
                    assert(!removal_from(start, 0, distinct@).0.contains(x));
                }
            }
        }
        (deleted, distinct)
    }
}


// ---------------------------------------------------------------------------
// Ordering records by creation time

/// Records are in non-decreasing order of creation time.
pub open spec fn sorted_by_time(s: Seq<FaceRecordInfo>) -> bool {
    forall|i: int, j: int| 0 <= i <= j < s.len() ==> s[i].created_at <= s[j].created_at
}

/// The predicate "was created at time `t`".
pub open spec fn created_at_is(t: i64) -> spec_fn(FaceRecordInfo) -> bool {
    |f: FaceRecordInfo| f.created_at == t
}

proof fn lemma_filter_none(s: Seq<FaceRecordInfo>, p: spec_fn(FaceRecordInfo) -> bool)
    requires
        forall|i: int| 0 <= i < s.len() ==> !p(#[trigger] s[i]),
    ensures
        s.filter(p) == Seq::<FaceRecordInfo>::empty(),
    decreases s.len(),
{
    reveal(Seq::filter);
    if s.len() > 0 {
        assert forall|i: int| 0 <= i < s.drop_last().len() implies !p(#[trigger] s.drop_last()[i]) by {
            assert(s.drop_last()[i] == s[i]);
        }
        lemma_filter_none(s.drop_last(), p);
        assert(!p(s.last()));
    }
    assert(s.filter(p) =~= Seq::<FaceRecordInfo>::empty());
}

proof fn lemma_filter_single(x: FaceRecordInfo, p: spec_fn(FaceRecordInfo) -> bool)
    ensures
        seq![x].filter(p) == (if p(x) { seq![x] } else { Seq::<FaceRecordInfo>::empty() }),
{
    reveal(Seq::filter);
    assert(seq![x].drop_last() =~= Seq::<FaceRecordInfo>::empty());
    assert(Seq::<FaceRecordInfo>::empty().filter(p) =~= Seq::<FaceRecordInfo>::empty());
    assert(seq![x].filter(p) =~= (if p(x) { seq![x] } else { Seq::<FaceRecordInfo>::empty() }));
}

proof fn lemma_insert_sorted(out: Seq<FaceRecordInfo>, p: int, x: FaceRecordInfo, t: i64)
    requires
        sorted_by_time(out),
        0 <= p <= out.len(),
        forall|j: int| 0 <= j < p ==> out[j].created_at <= x.created_at,
        forall|j: int| p <= j < out.len() ==> out[j].created_at > x.created_at,
    ensures
        sorted_by_time(out.insert(p, x)),
        out.insert(p, x).filter(created_at_is(t)) == (if x.created_at == t {
            out.filter(created_at_is(t)).push(x)
        } else {
            out.filter(created_at_is(t))
        }),
{
    let n = out.insert(p, x);
    let pr = created_at_is(t);
    assert(n =~= out.take(p) + seq![x] + out.skip(p));
    assert(out =~= out.take(p) + out.skip(p));
    Seq::filter_distributes_over_add(out.take(p) + seq![x], out.skip(p), pr);
    Seq::filter_distributes_over_add(out.take(p), seq![x], pr);
    Seq::filter_distributes_over_add(out.take(p), out.skip(p), pr);
    lemma_filter_single(x, pr);
    if x.created_at == t {
        assert forall|i: int| 0 <= i < out.skip(p).len() implies !pr(#[trigger] out.skip(p)[i]) by {
            assert(out.skip(p)[i] == out[p + i]);
        }
        lemma_filter_none(out.skip(p), pr);
        assert(out.filter(pr) =~= out.take(p).filter(pr) + Seq::<FaceRecordInfo>::empty());
        assert(n.filter(pr) =~= out.filter(pr).push(x));
    } else {
        assert(n.filter(pr) =~= out.filter(pr));
    }
}

impl FaceStorage {
    /// `records` in non-decreasing order of creation time; records created at the
    /// same time keep their relative order.
    pub fn sort_by_created_at(&self, records: Vec<FaceRecordInfo>) -> (r: Vec<FaceRecordInfo>)
        ensures
            sorted_by_time(r@),
            r@.len() == records@.len(),
            forall|t: i64| #[trigger] r@.filter(created_at_is(t)) == records@.filter(created_at_is(t)),
    {
        let mut out: Vec<FaceRecordInfo> = Vec::new();
        let mut i: usize = 0;
        while i < records.len()
            invariant
                i <= records.len(),
                sorted_by_time(out@),
                out@.len() == i,
                forall|t: i64| #[trigger] out@.filter(created_at_is(t)) == records@.take(i as int).filter(created_at_is(t)),
            decreases records.len() - i,
        {
            let x = records[i].clone();
            let mut p: usize = 0;
            while p < out.len() && out[p].created_at <= x.created_at
                invariant
                    p <= out.len(),
                    forall|j: int| 0 <= j < p ==> out@[j].created_at <= x.created_at,
                decreases out.len() - p,
            {
                p = p + 1;
            }
            let ghost prev = out@;
            proof {
                assert forall|j: int| p <= j < prev.len() implies prev[j].created_at > x.created_at by {
                    assert(prev[p as int].created_at > x.created_at);
                    assert(prev[p as int].created_at <= prev[j].created_at);
                }
            }
            out.insert(p, x);
            proof {
                assert(records@.take(i + 1).drop_last() =~= records@.take(i as int));
                assert(records@.take(i + 1).last() == x);
                assert forall|t: i64| #[trigger] out@.filter(created_at_is(t)) == records@.take(i + 1).filter(created_at_is(t)) by {
                    lemma_insert_sorted(prev, p as int, x, t);
                    reveal(Seq::filter);
                }
                lemma_insert_sorted(prev, p as int, x, 0);
            }
            i = i + 1;
        }
        assert(records@.take(i as int) =~= records@);
        out
    }
}


// ---------------------------------------------------------------------------
// Registered users

/// A user directory found in the store, with its face count (`None` when its
/// metadata could not be read).
#[derive(Debug)]
pub struct UserCandidate {
    pub name: String,
    pub face_count: Option<usize>,
}

/// The candidate has at least one face.
pub open spec fn has_some_face(u: UserCandidate) -> bool {
    u.face_count matches Some(n) && n > 0
}

/// Names of the candidates with at least one face, in the given order.
pub open spec fn names_with_faces(c: Seq<UserCandidate>) -> Seq<String>
    decreases c.len(),
{
    if c.len() == 0 {
        Seq::empty()
    } else if has_some_face(c.last()) {
        names_with_faces(c.drop_last()).push(c.last().name)
    } else {
        names_with_faces(c.drop_last())
    }
}

/// Names are in non-decreasing lexicographic order.
pub open spec fn names_sorted(s: Seq<String>) -> bool {
    forall|i: int, j: int| 0 <= i < j < s.len() ==> !crate::text::seq_lt(s[j]@, s[i]@)
}

proof fn lemma_insert_name(out: Seq<String>, p: int, x: String)
    requires
        names_sorted(out),
        0 <= p <= out.len(),
        forall|j: int| 0 <= j < p ==> !crate::text::seq_lt(x@, #[trigger] out[j]@),
        p < out.len() ==> crate::text::seq_lt(x@, out[p]@),
    ensures
        names_sorted(out.insert(p, x)),
        out.insert(p, x).to_multiset() =~= out.to_multiset().insert(x),
{
    broadcast use vstd::seq_lib::group_to_multiset_ensures;
    let n = out.insert(p, x);
    assert forall|i: int, j: int| 0 <= i < j < n.len() implies !crate::text::seq_lt(n[j]@, n[i]@) by {
        if j == p {
            assert(n[i] == out[i]);
        } else if i == p {
            assert(n[j] == out[j - 1]);
            crate::text::lemma_seq_lt_asym(x@, out[p]@);
            if j - 1 > p {
                crate::text::lemma_seq_lt_trans(out[j - 1]@, x@, out[p]@);
            }
        } else {
            let ii = if i < p { i } else { i - 1 };
            let jj = if j < p { j } else { j - 1 };
            assert(n[i] == out[ii]);
            assert(n[j] == out[jj]);
        }
    }
    assert(n.remove(p) =~= out);
    assert(n[p] == x);
    assert(n.to_multiset().count(x) > 0) by {
        assert(n.contains(x));
    }
}

impl FaceStorage {
    /// The registered users: the names of the candidates that have at least one
    /// face, in lexicographic order.
    pub fn registered_users(&self, candidates: &Vec<UserCandidate>) -> (r: Vec<String>)
        ensures
            names_sorted(r@),
            r@.to_multiset() =~= names_with_faces(candidates@).to_multiset(),
    {
        broadcast use vstd::seq_lib::group_to_multiset_ensures;
        let mut out: Vec<String> = Vec::new();
        let mut i: usize = 0;
        while i < candidates.len()
            invariant
                i <= candidates.len(),
                names_sorted(out@),
                out@.to_multiset() =~= names_with_faces(candidates@.take(i as int)).to_multiset(),
            decreases candidates.len() - i,
        {
            let c = &candidates[i];
            assert(candidates@.take(i + 1).drop_last() =~= candidates@.take(i as int));
            assert(candidates@.take(i + 1).last() == candidates@[i as int]);
            let keep = match c.face_count {
                Some(n) => n > 0,
                None => false,
            };
            assert(keep == has_some_face(candidates@[i as int]));
            let ghost prev_names = names_with_faces(candidates@.take(i as int));
            assert(names_with_faces(candidates@.take(i + 1)) == (if keep {
                prev_names.push(candidates@[i as int].name)
            } else {
                prev_names
            }));
            if keep {
                let x = c.name.clone();
                let mut p: usize = 0;
                while p < out.len() && !crate::text::str_lt(x.as_str(), out[p].as_str())
                    invariant
                        p <= out.len(),
                        forall|j: int| 0 <= j < p ==> !crate::text::seq_lt(x@, #[trigger] out@[j]@),
                    decreases out.len() - p,
                {
                    p = p + 1;
                }
                proof {
                    lemma_insert_name(out@, p as int, x);
                    vstd::seq_lib::to_multiset_build(prev_names, x);
                }
                out.insert(p, x);
            }
            i = i + 1;
        }
        assert(candidates@.take(i as int) =~= candidates@);
        out
    }
}

/// The user has at least one face: the metadata was read and its groups
/// hold a face.
pub open spec fn user_has_faces(metadata: Result<UserMetadata, Error>) -> bool {
    metadata matches Ok(m) && face_total(m.groups@) > 0
}

/// The face count that a listing records for a user whose metadata read
/// gave `metadata`: the total when it was read, nothing when it failed.
pub open spec fn counted_faces(metadata: Result<UserMetadata, Error>) -> Option<usize> {
    match metadata {
        Ok(m) => Some(face_total(m.groups@) as usize),
        Err(_) => None,
    }
}

proof fn lemma_names_with_faces_member(c: Seq<UserCandidate>, i: int)
    requires
        0 <= i < c.len(),
        has_some_face(c[i]),
    ensures
        names_with_faces(c).contains(c[i].name),
    decreases c.len(),
{
    if i == c.len() - 1 {
        assert(names_with_faces(c).last() == c[i].name);
    } else {
        lemma_names_with_faces_member(c.drop_last(), i);
        let prev = names_with_faces(c.drop_last());
        let k = choose|k: int| 0 <= k < prev.len() && prev[k] == c[i].name;
        if has_some_face(c.last()) {
            assert(names_with_faces(c)[k] == prev[k]);
        }
    }
}

proof fn lemma_names_with_faces_origin(c: Seq<UserCandidate>, x: String)
    requires
        names_with_faces(c).contains(x),
    ensures
        exists|j: int| 0 <= j < c.len() && has_some_face(#[trigger] c[j]) && c[j].name == x,
    decreases c.len(),
{
    let prev = names_with_faces(c.drop_last());
    if has_some_face(c.last()) && x == c.last().name {
        assert(c[c.len() - 1] == c.last());
    } else {
        let k = choose|k: int| 0 <= k < names_with_faces(c).len() && names_with_faces(c)[k] == x;
        if has_some_face(c.last()) {
            assert(k < prev.len());
            assert(prev[k] == x);
        }
        assert(prev.contains(x));
        lemma_names_with_faces_origin(c.drop_last(), x);
        let j = choose|j: int| 0 <= j < c.drop_last().len() && has_some_face(#[trigger] c.drop_last()[j]) && c.drop_last()[j].name == x;
        assert(c[j] == c.drop_last()[j]);
    }
}

/// A user has faces (what `has_faces` answers) exactly when the face count
/// read from the same metadata (what `total_face_count` gives, kept by the
/// listing) is a number above 0. Such a user is among the users that
/// `registered_users` lists; when no other candidate carries the same name,
/// the user is listed exactly when it has faces. Every listed name is that of
/// a candidate with at least one face.
pub proof fn lemma_listed_users(
    candidates: Seq<UserCandidate>,
    listed: Seq<String>,
    i: int,
    metadata: Result<UserMetadata, Error>,
)
    requires
        listed.to_multiset() =~= names_with_faces(candidates).to_multiset(),
        0 <= i < candidates.len(),
        candidates[i].face_count == counted_faces(metadata),
        metadata matches Ok(m) ==> face_total(m.groups@) <= usize::MAX,
    ensures
        user_has_faces(metadata) <==> (counted_faces(metadata) matches Some(n) && n > 0),
        user_has_faces(metadata) ==> listed.contains(candidates[i].name),
        (forall|j: int| 0 <= j < candidates.len() && #[trigger] candidates[j].name == candidates[i].name ==> j == i)
            ==> (listed.contains(candidates[i].name) <==> user_has_faces(metadata)),
        forall|x: String| #[trigger] listed.contains(x) ==> exists|j: int|
            0 <= j < candidates.len() && has_some_face(#[trigger] candidates[j]) && candidates[j].name == x,
{
    broadcast use vstd::seq_lib::group_to_multiset_ensures;
    if user_has_faces(metadata) {
        lemma_names_with_faces_member(candidates, i);
        assert(names_with_faces(candidates).to_multiset().count(candidates[i].name) > 0);
        assert(listed.to_multiset().count(candidates[i].name) > 0);
    }
    assert forall|x: String| #[trigger] listed.contains(x) implies exists|j: int|
        0 <= j < candidates.len() && has_some_face(#[trigger] candidates[j]) && candidates[j].name == x by {
        assert(listed.to_multiset().count(x) > 0);
        assert(names_with_faces(candidates).to_multiset().count(x) > 0);
        lemma_names_with_faces_origin(candidates, x);
    }
    if (forall|j: int| 0 <= j < candidates.len() && #[trigger] candidates[j].name == candidates[i].name ==> j == i)
        && listed.contains(candidates[i].name) {
        let x = candidates[i].name;
        assert(listed.contains(x));
        let j = choose|j: int| 0 <= j < candidates.len() && has_some_face(#[trigger] candidates[j]) && candidates[j].name == x;
        assert(j == i);
    }
}

// ---------------------------------------------------------------------------
// Laws of the store: what a change leaves is what a later read finds.

proof fn lemma_decimal_digits(n: nat)
    ensures
        crate::text::all_digits(decimal(n)),
    decreases n,
{
    if n >= 10 {
        lemma_decimal_digits(n / 10);
        let d = decimal(n);
        assert(d == decimal(n / 10).push(crate::text::digit_char(n % 10)));
        assert forall|i: int| 0 <= i < d.len() implies crate::text::is_digit_char(#[trigger] d[i]) by {
            if i < decimal(n / 10).len() {
                assert(d[i] == decimal(n / 10)[i]);
            }
        }
    }
}

/// The label that `next_available_face_label` picks is one that adding a face
/// accepts: a valid name that no face of the group carries yet.
pub proof fn lemma_free_label_accepted(faces: Seq<FaceRecordInfo>, label: Seq<char>)
    requires
        is_first_free_label(faces, label),
    ensures
        is_identifier(label),
        !has_label(faces, label),
{
    let k = choose|k: nat| {
        &&& k >= 1
        &&& label == numbered_label(k)
        &&& !has_label(faces, numbered_label(k))
        &&& forall|j: nat| 1 <= j < k ==> has_label(faces, #[trigger] numbered_label(j))
    };
    reveal_strlit("face_");
    lemma_decimal_digits(k);
    assert forall|i: int| 1 <= i < label.len() implies (crate::text::is_alnum_char(#[trigger] label[i])
        || label[i] == '_') by {
        if i >= 5 {
            assert(label[i] == decimal(k)[i - 5]);
        }
    }
}

/// A group created under a valid name that no group of the user has is then
/// found by that name: resolving the name on the groups that `create_group`
/// leaves gives the new group.
pub proof fn lemma_created_group_resolves(
    groups: Seq<FaceGroupSummary>,
    name: Seq<char>,
    g: FaceGroupMetadata,
    username: Seq<char>,
)
    requires
        is_identifier(trimmed(name)),
        first_string_index(group_names(groups), trimmed(name)) is None,
        g.name@ == trimmed(name),
    ensures
        group_resolution(upserted(groups, summary_of(g)), username, trimmed(name)) == Ok::<
            FaceGroupSummary,
            Seq<char>,
        >(summary_of(g)),
{
    let n = trimmed(name);
    let after = upserted(groups, summary_of(g));
    assert(!crate::text::is_digit_char(n[0]));
    assert(!is_digit_run(n));
    assert(!is_legacy_index(n));
    crate::models::lemma_first_index_some(group_ids(groups), g.id);
    let pos = match first_index_of(group_ids(groups), g.id) {
        Some(i) => i,
        None => groups.len() as int,
    };
    assert(after.len() > 0 && after[pos] == summary_of(g));
    assert(forall|j: int| 0 <= j < groups.len() ==> group_names(groups)[j]@ != n);
    assert(is_first_string(group_names(after), n, pos)) by {
        assert forall|j: int| 0 <= j < pos implies group_names(after)[j]@ != n by {
            assert(after[j] == groups[j]);
            assert(group_names(groups)[j]@ != n);
        }
    }
    lemma_first_string(group_names(after), n, pos);
}

/// After the default group is set to one of the user's groups, the default
/// group is that group.
pub proof fn lemma_default_after_set(m: UserMetadata, id: u128)
    requires
        group_ids(m.groups@).contains(id),
    ensures
        default_group_of((UserMetadata { default_group_id: Some(id), ..m })) matches Some(g) && g.id == id,
{
    crate::models::lemma_first_index_some(group_ids(m.groups@), id);
}

/// A removed group is gone: when group ids are distinct, none of the groups
/// that `delete_group` leaves has the removed id.
pub proof fn lemma_deleted_group_gone(groups: Seq<FaceGroupSummary>, id: u128)
    requires
        unique_group_ids(groups),
        group_ids(groups).contains(id),
    ensures
        first_index_of(group_ids(groups), id) matches Some(i) && !group_ids(groups.remove(i)).contains(id),
{
    crate::models::lemma_first_index_some(group_ids(groups), id);
    let i = first_index_of(group_ids(groups), id)->Some_0;
    let rest = groups.remove(i);
    assert forall|j: int| 0 <= j < rest.len() implies group_ids(rest)[j] != id by {
        if j < i {
            assert(rest[j] == groups[j]);
        } else {
            assert(rest[j] == groups[j + 1]);
        }
    }
}

} // verus!
