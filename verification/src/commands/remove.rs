//! The `remove` command: what it removes, given which selectors were given.

use crate::commands::{is_message, CommandError};
use vstd::prelude::*;
use vstd::string::StringExecFns;

verus! {

/// What the command removes.
#[derive(Debug, PartialEq, Eq)]
pub enum RemoveScope {
    /// All of the user's data.
    User,
    /// A whole group (the selector).
    Group(String),
    /// Selected faces of a group (the default group without a group selector).
    Faces,
}

pub open spec fn nothing_to_remove_text() -> Seq<char> {
    "Nothing to remove. Specify --face, --group, or --user."@
}

/// The scope of a removal: faces when any face selector is given; otherwise
/// the group when one is selected; otherwise the user when one is selected;
/// nothing at all is refused.
pub fn run(user_selected: bool, group: Option<&str>, face_selected: bool) -> (r: Result<RemoveScope, CommandError>)
    ensures
        face_selected ==> r == Ok::<RemoveScope, CommandError>(RemoveScope::Faces),
        !face_selected && group is Some ==> (r matches Ok(RemoveScope::Group(g)) && g@ == group->Some_0@),
        !face_selected && group is None && user_selected ==> r == Ok::<RemoveScope, CommandError>(RemoveScope::User),
        !face_selected && group is None && !user_selected ==> (r matches Err(e) && is_message(e, nothing_to_remove_text())),
{
    if !user_selected && group.is_none() && !face_selected {
        return Err(CommandError::Message(String::from_str("Nothing to remove. Specify --face, --group, or --user.")));
    }
    if user_selected && group.is_none() && !face_selected {
        return Ok(RemoveScope::User);
    }
    match group {
        Some(g) => {
            if !face_selected {
                return Ok(RemoveScope::Group(String::from_str(g)));
            }
        },
        None => {},
    }
    Ok(RemoveScope::Faces)
}

pub open spec fn no_user_data_text(username: Seq<char>) -> Seq<char> {
    "No face data stored for user '"@ + username + "'"@
}

/// The refusal to remove a user who has no stored data.
pub fn no_user_data_error(username: &str) -> (r: CommandError)
    ensures
        is_message(r, no_user_data_text(username@)),
{
    let mut m = String::from_str("No face data stored for user '");
    m.append(username);
    m.append("'");
    CommandError::Message(m)
}

pub open spec fn no_matching_faces_text(group: Seq<char>) -> Seq<char> {
    "No matching faces found in group '"@ + group + "'"@
}

/// The refusal when the selectors matched no face.
pub fn no_matching_faces_error(group_name: &str) -> (r: CommandError)
    ensures
        is_message(r, no_matching_faces_text(group_name@)),
{
    let mut m = String::from_str("No matching faces found in group '");
    m.append(group_name);
    m.append("'");
    CommandError::Message(m)
}

} // verus!
