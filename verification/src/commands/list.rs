//! The `list` command: whose data it shows, and the lines of the tree of
//! groups and faces it prints.

use crate::commands::{
    ensure_user_access, is_message, no_username_text, resolve_username, root_required_text, CommandError,
};
use crate::error::Error;
use crate::ident::{uuid_string, uuid_text};
use crate::models::{default_group_of, face_total, FaceGroupSummary, UserMetadata};
use crate::selector::{is_legacy_index, is_storage_error, legacy_index_text};
use crate::storage::{user_resolution, FaceStorage};
use crate::text::{decimal, is_digit_run, push_decimal};
use vstd::prelude::*;
use vstd::string::StrSliceExecFns;
use vstd::string::StringExecFns;

verus! {

/// Whose data the command shows.
#[derive(Debug)]
pub enum ListTarget {
    /// Every registered user.
    AllUsers,
    /// One user.
    User(String),
}

pub open spec fn all_needs_root_text() -> Seq<char> {
    "Root privileges required to list data for all users"@
}

pub open spec fn all_conflict_text() -> Seq<char> {
    "--all cannot be combined with --user or --group"@
}

/// The outcome of showing `target`'s data: root may, and so may the
/// invoking user for their own data.
pub open spec fn access_outcome(r: Result<ListTarget, CommandError>, target: Seq<char>, euid: u32, current: Option<String>) -> bool {
    if euid == 0 {
        r matches Ok(ListTarget::User(u)) && u@ == target
    } else {
        match current {
            None => r matches Err(e) && is_message(e, no_username_text()),
            Some(c) => if c@ == target {
                r matches Ok(ListTarget::User(u)) && u@ == target
            } else {
                r matches Err(e) && is_message(e, root_required_text("list data for other users"@))
            },
        }
    }
}

/// Whose data the command shows, given the caller's effective uid, the
/// registered users (as listing them turned out) and the invoking user:
/// `--all` takes root and no user or group selector; otherwise the selected
/// user, whose data only root or that user may see.
pub fn run(
    storage: &FaceStorage,
    user: Option<String>,
    group: Option<String>,
    all: bool,
    euid: u32,
    users: Result<Vec<String>, Error>,
    current: Option<String>,
) -> (r: Result<ListTarget, CommandError>)
    ensures
        all && euid != 0 ==> (r matches Err(e) && is_message(e, all_needs_root_text())),
        all && euid == 0 && (user is Some || group is Some) ==> (r matches Err(e) && is_message(e, all_conflict_text())),
        all && euid == 0 && user is None && group is None ==> r matches Ok(ListTarget::AllUsers),
        !all ==> match user {
            Some(s) => if is_digit_run(s@) {
                match users {
                    Err(e) => r == Err::<ListTarget, CommandError>(CommandError::Core(e)),
                    Ok(list) => match user_resolution(list@, s@) {
                        Err(m) => r matches Err(CommandError::Core(e)) && is_storage_error(e, m),
                        Ok(v) => access_outcome(r, v, euid, current),
                    },
                }
            } else if is_legacy_index(s@) {
                r matches Err(e) && is_message(e, legacy_index_text("user selector"@, s@))
            } else {
                access_outcome(r, s@, euid, current)
            },
            None => match current {
                None => r matches Err(e) && is_message(e, no_username_text()),
                Some(c) => r matches Ok(ListTarget::User(u)) && u@ == c@,
            },
        },
{
    if all {
        if euid != 0 {
            return Err(CommandError::Message(String::from_str("Root privileges required to list data for all users")));
        }
        if user.is_some() || group.is_some() {
            return Err(CommandError::Message(String::from_str("--all cannot be combined with --user or --group")));
        }
        return Ok(ListTarget::AllUsers);
    }
    let who = match &user {
        Some(s) => resolve_username(storage, Some(s.as_str()), users, current.clone()),
        None => resolve_username(storage, None, users, current.clone()),
    };
    let username = match who {
        Ok(u) => u,
        Err(e) => return Err(e),
    };
    match ensure_user_access(username.as_str(), "list data for other users", euid, current) {
        Ok(()) => Ok(ListTarget::User(username)),
        Err(e) => Err(e),
    }
}

// ---------------------------------------------------------------------------
// Lines of the tree

/// `n` spaces.
pub open spec fn spaces(n: nat) -> Seq<char> {
    Seq::new(n, |i: int| ' ')
}

/// `s` right-aligned in a field of `w` characters.
pub open spec fn pad_left(s: Seq<char>, w: nat) -> Seq<char> {
    if s.len() >= w { s } else { spaces((w - s.len()) as nat) + s }
}

/// `s` left-aligned in a field of `w` characters.
pub open spec fn pad_right(s: Seq<char>, w: nat) -> Seq<char> {
    if s.len() >= w { s } else { s + spaces((w - s.len()) as nat) }
}

/// Appends `n` spaces to `out`.
pub fn push_spaces(out: &mut String, n: usize)
    ensures
        final(out)@ == old(out)@ + spaces(n as nat),
{
    let mut i: usize = 0;
    while i < n
        invariant
            i <= n,
            out@ == old(out)@ + spaces(i as nat),
        decreases n - i,
    {
        out.append(" ");
        proof {
            reveal_strlit(" ");
        }
        assert(out@ =~= old(out)@ + spaces((i + 1) as nat));
        i = i + 1;
    }
}

fn push_padded_left(out: &mut String, s: &str, w: usize)
    ensures
        final(out)@ == old(out)@ + pad_left(s@, w as nat),
{
    let n = s.unicode_len();
    if n < w {
        push_spaces(out, w - n);
    }
    out.append(s);
    assert(final(out)@ =~= old(out)@ + pad_left(s@, w as nat));
}

fn push_padded_right(out: &mut String, s: &str, w: usize)
    ensures
        final(out)@ == old(out)@ + pad_right(s@, w as nat),
{
    let n = s.unicode_len();
    out.append(s);
    if n < w {
        push_spaces(out, w - n);
    }
    assert(final(out)@ =~= old(out)@ + pad_right(s@, w as nat));
}

/// The heading of a user's tree: `[i] name` when listing all users, else
/// `Face data for 'name':`.
pub open spec fn heading_text(username: Seq<char>, user_index: Option<usize>) -> Seq<char> {
    match user_index {
        Some(i) => "["@ + decimal(i as nat) + "] "@ + username,
        None => "Face data for '"@ + username + "':"@,
    }
}

pub fn user_heading(username: &str, user_index: Option<usize>) -> (r: String)
    ensures
        r@ == heading_text(username@, user_index),
{
    match user_index {
        Some(i) => {
            let mut s = String::from_str("[");
            push_decimal(&mut s, i as u64);
            s.append("] ");
            s.append(username);
            s
        },
        None => {
            let mut s = String::from_str("Face data for '");
            s.append(username);
            s.append("':");
            s
        },
    }
}

/// The summary lines of a user's tree: group and face counts, the default
/// group and the per-group limit.
pub open spec fn summary_texts(m: UserMetadata, max_faces_per_group: u32) -> Seq<Seq<char>> {
    if m.groups@.len() == 0 {
        seq![
            "  Groups: 0"@,
            "  Total faces: 0"@,
            "  Default group: (none)"@,
            "  Max faces per group: "@ + decimal(max_faces_per_group as nat),
        ]
    } else {
        seq![
            "  Groups: "@ + decimal(m.groups@.len()),
            "  Total faces: "@ + decimal(face_total(m.groups@)),
            "  Default group: "@ + match default_group_of(m) {
                Some(g) => g.name@,
                None => "(none)"@,
            },
            "  Max faces per group: "@ + decimal(max_faces_per_group as nat),
        ]
    }
}

fn counted_line(prefix: &str, n: u64) -> (r: String)
    ensures
        r@ == prefix@ + decimal(n as nat),
{
    let mut s = String::from_str(prefix);
    push_decimal(&mut s, n);
    s
}

/// The summary lines of a user's tree.
pub fn summary_lines(metadata: &UserMetadata, max_faces_per_group: u32) -> (r: Vec<String>)
    requires
        face_total(metadata.groups@) <= usize::MAX,
    ensures
        r@.map_values(|l: String| l@) == summary_texts(*metadata, max_faces_per_group),
{
    let mut out: Vec<String> = Vec::new();
    if metadata.groups.len() == 0 {
        out.push(String::from_str("  Groups: 0"));
        out.push(String::from_str("  Total faces: 0"));
        out.push(String::from_str("  Default group: (none)"));
    } else {
        out.push(counted_line("  Groups: ", metadata.groups.len() as u64));
        out.push(counted_line("  Total faces: ", metadata.total_face_count() as u64));
        let mut d = String::from_str("  Default group: ");
        match metadata.default_group() {
            Some(g) => d.append(g.name.as_str()),
            None => d.append("(none)"),
        }
        out.push(d);
    }
    out.push(counted_line("  Max faces per group: ", max_faces_per_group as u64));
    assert(out@.map_values(|l: String| l@) =~= summary_texts(*metadata, max_faces_per_group));
    out
}

/// The positions of the groups the tree shows: those whose id is the
/// selected group's, or all of them.
pub open spec fn shown_groups(groups: Seq<FaceGroupSummary>, selected: Option<u128>) -> Seq<int>
    decreases groups.len(),
{
    if groups.len() == 0 {
        Seq::empty()
    } else {
        let rest = shown_groups(groups.drop_last(), selected);
        if selected matches Some(id) && groups.last().id != id {
            rest
        } else {
            rest.push(groups.len() - 1)
        }
    }
}

pub fn groups_to_show(metadata: &UserMetadata, selected: Option<u128>) -> (r: Vec<usize>)
    ensures
        r@.map_values(|i: usize| i as int) == shown_groups(metadata.groups@, selected),
{
    let mut out: Vec<usize> = Vec::new();
    let mut i: usize = 0;
    while i < metadata.groups.len()
        invariant
            i <= metadata.groups@.len(),
            out@.map_values(|k: usize| k as int) == shown_groups(metadata.groups@.take(i as int), selected),
        decreases metadata.groups.len() - i,
    {
        proof {
            assert(metadata.groups@.take(i + 1).drop_last() =~= metadata.groups@.take(i as int));
        }
        let ghost before = out@.map_values(|k: usize| k as int);
        let keep = match selected {
            Some(id) => metadata.groups[i].id == id,
            None => true,
        };
        if keep {
            out.push(i);
            assert(out@.map_values(|k: usize| k as int) =~= before.push(i as int));
        }
        assert(out@.map_values(|k: usize| k as int) =~= shown_groups(metadata.groups@.take(i + 1), selected));
        i = i + 1;
    }
    assert(metadata.groups@.take(metadata.groups@.len() as int) =~= metadata.groups@);
    out
}

/// A group's line: `  [i] name ( [default])(n face(s))`.
pub open spec fn group_text(index: usize, g: FaceGroupSummary, is_default: bool) -> Seq<char> {
    "  ["@ + decimal(index as nat) + "] "@ + g.name@ + (if is_default { " [default]"@ } else { ""@ }) + " ("@
        + decimal(g.face_count as nat) + " face(s))"@
}

/// Whether `g` is the user's default group.
pub open spec fn is_default_of(m: UserMetadata, g: FaceGroupSummary) -> bool {
    default_group_of(m) matches Some(d) && d.id == g.id
}

pub fn group_line(metadata: &UserMetadata, index: usize) -> (r: String)
    requires
        index < metadata.groups@.len(),
    ensures
        r@ == group_text(index, metadata.groups@[index as int], is_default_of(*metadata, metadata.groups@[index as int])),
{
    let g = &metadata.groups[index];
    let is_default = match metadata.default_group() {
        Some(d) => d.id == g.id,
        None => false,
    };
    let mut s = String::from_str("  [");
    push_decimal(&mut s, index as u64);
    s.append("] ");
    s.append(g.name.as_str());
    if is_default {
        s.append(" [default]");
    } else {
        proof {
            reveal_strlit("");
        }
    }
    s.append(" (");
    push_decimal(&mut s, g.face_count as u64);
    s.append(" face(s))");
    assert(s@ =~= group_text(index, *g, is_default));
    s
}

/// The heading of the face table.
pub open spec fn face_header_text() -> Seq<char> {
    "    "@ + pad_left("Index"@, 8) + "  "@ + pad_right("ID"@, 36) + "  "@ + pad_right("Label"@, 20) + "  Created"@
}

pub fn face_header() -> (r: String)
    ensures
        r@ == face_header_text(),
{
    let mut s = String::from_str("    ");
    push_padded_left(&mut s, "Index", 8);
    s.append("  ");
    push_padded_right(&mut s, "ID", 36);
    s.append("  ");
    push_padded_right(&mut s, "Label", 20);
    s.append("  Created");
    s
}

/// A face's row: its position right-aligned in 8 columns, its id, its label
/// left-aligned in 20 columns, and its creation time as formatted.
pub open spec fn face_row_text(index: usize, id: u128, label: Seq<char>, created: Seq<char>) -> Seq<char> {
    "    "@ + pad_left(decimal(index as nat), 8) + "  "@ + uuid_text(id) + "  "@ + pad_right(label, 20) + "  "@ + created
}

pub fn face_row(index: usize, id: u128, label: &str, created: &str) -> (r: String)
    ensures
        r@ == face_row_text(index, id, label@, created@),
{
    let mut s = String::from_str("    ");
    let n = crate::text::decimal_string(index as u64);
    push_padded_left(&mut s, n.as_str(), 8);
    s.append("  ");
    let u = uuid_string(id);
    s.append(u.as_str());
    s.append("  ");
    push_padded_right(&mut s, label, 20);
    s.append("  ");
    s.append(created);
    s
}

/// The heading lines when listing every user.
pub open spec fn all_users_texts(user_count: usize, total_faces: usize, max_faces_per_group: u32) -> Seq<Seq<char>> {
    seq![
        "Face data for all registered users:"@,
        "  Users: "@ + decimal(user_count as nat),
        "  Total faces: "@ + decimal(total_faces as nat),
        "  Max faces per group: "@ + decimal(max_faces_per_group as nat),
    ]
}

pub fn all_users_lines(user_count: usize, total_faces: usize, max_faces_per_group: u32) -> (r: Vec<String>)
    ensures
        r@.map_values(|l: String| l@) == all_users_texts(user_count, total_faces, max_faces_per_group),
{
    let mut out: Vec<String> = Vec::new();
    out.push(String::from_str("Face data for all registered users:"));
    out.push(counted_line("  Users: ", user_count as u64));
    out.push(counted_line("  Total faces: ", total_faces as u64));
    out.push(counted_line("  Max faces per group: ", max_faces_per_group as u64));
    assert(out@.map_values(|l: String| l@) =~= all_users_texts(user_count, total_faces, max_faces_per_group));
    out
}

} // verus!
