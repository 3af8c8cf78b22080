//! Decisions of the command-line tool: which user and group a command
//! targets, who may act on whose data, and which keys steer a capture.

pub mod add;
pub mod config;
pub mod list;
pub mod remove;
pub mod status;
pub mod test;

use crate::error::{error_text, Error};
use crate::models::{default_group_of, first_index_of, group_ids, lemma_first_index_some, upserted, metadata_wf, summary_of, FaceGroupMetadata, FaceGroupSummary, UserMetadata};
use crate::selector::{default_group_name, is_legacy_index, is_storage_error, is_legacy_prefixed_numeric_selector, legacy_index_text};
use crate::storage::{
    first_string_index, group_names, group_outcome, group_resolution, no_default_group_text, text_outcome,
    user_resolution, DefaultGroup, FaceStorage,
};
use crate::text::{is_digit_run, is_digit_run_str, str_eq, trimmed};
use vstd::prelude::*;
use vstd::string::StrSliceExecFns;
use vstd::string::StringExecFns;

verus! {

/// Errors of a command: one of the library, or a message of the command's own.
#[derive(Debug)]
pub enum CommandError {
    Core(Error),
    Message(String),
}

/// The text a command prints for an error.
pub open spec fn command_error_text(e: CommandError) -> Seq<char> {
    match e {
        CommandError::Core(c) => error_text(c),
        CommandError::Message(m) => m@,
    }
}

/// The error is the command's own message `m`.
pub open spec fn is_message(e: CommandError, m: Seq<char>) -> bool {
    e matches CommandError::Message(x) && x@ == m
}

impl CommandError {
    pub fn message(&self) -> (r: String)
        ensures
            r@ == command_error_text(*self),
    {
        match self {
            CommandError::Core(e) => e.message(),
            CommandError::Message(m) => m.clone(),
        }
    }
}

/// A key pressed during a capture.
#[derive(Debug, Clone, Copy, PartialEq, Eq, Structural)]
pub enum CommandKey {
    Quit,
    Action,
}

/// The command that a byte read from the terminal stands for: `q`/`Q` quit;
/// `a`/`A`, newline and carriage return act; anything else is ignored.
pub open spec fn key_of_byte(b: u8) -> Option<CommandKey> {
    if b == 0x71 || b == 0x51 {
        Some(CommandKey::Quit)
    } else if b == 0x61 || b == 0x41 || b == 0x0a || b == 0x0d {
        Some(CommandKey::Action)
    } else {
        None
    }
}

/// Decodes one byte read from the terminal.
pub fn key_for_byte(b: u8) -> (r: Option<CommandKey>)
    ensures
        r == key_of_byte(b),
{
    if b == 0x71u8 || b == 0x51u8 {
        Some(CommandKey::Quit)
    } else if b == 0x61u8 || b == 0x41u8 || b == 0x0au8 || b == 0x0du8 {
        Some(CommandKey::Action)
    } else {
        None
    }
}

pub open spec fn no_username_text() -> Seq<char> {
    "Could not determine username. Please specify with --user"@
}

/// The user the command runs as, given the invoking user found (if any).
pub fn current_username(current: Option<String>) -> (r: Result<String, CommandError>)
    ensures
        match current {
            Some(u) => r matches Ok(x) && x@ == u@,
            None => r matches Err(e) && is_message(e, no_username_text()),
        },
{
    match current {
        Some(u) => Ok(u),
        None => Err(CommandError::Message(String::from_str("Could not determine username. Please specify with --user"))),
    }
}

fn legacy_error(scope: &str, selector: &str) -> (r: CommandError)
    requires
        selector@.len() > 0,
    ensures
        is_message(r, legacy_index_text(scope@, selector@)),
{
    let mut m = String::from_str("Invalid ");
    m.append(scope);
    m.append(" '");
    m.append(selector);
    m.append("'. Use bare numeric indexes like '");
    let n = selector.unicode_len();
    let rest = selector.substring_char(1, n);
    m.append(rest);
    m.append("'");
    assert(rest@ =~= selector@.drop_first());
    assert(m@ =~= legacy_index_text(scope@, selector@));
    CommandError::Message(m)
}

/// Which user a command targets: a numeric selector picks from the registered
/// users (`users`, as listing them turned out), an `@N`/`#N` selector is
/// refused, any other selector is taken as the name, and without a selector
/// the invoking user (`current`) is meant.
pub fn resolve_username(
    storage: &FaceStorage,
    user_selector: Option<&str>,
    users: Result<Vec<String>, Error>,
    current: Option<String>,
) -> (r: Result<String, CommandError>)
    ensures
        match user_selector {
            Some(s) => if is_digit_run(s@) {
                match users {
                    Ok(list) => match user_resolution(list@, s@) {
                        Ok(v) => r matches Ok(x) && x@ == v,
                        Err(m) => r matches Err(CommandError::Core(e)) && is_storage_error(e, m),
                    },
                    Err(e) => r == Err::<String, CommandError>(CommandError::Core(e)),
                }
            } else if is_legacy_index(s@) {
                r matches Err(e) && is_message(e, legacy_index_text("user selector"@, s@))
            } else {
                r matches Ok(x) && x@ == s@
            },
            None => match current {
                Some(u) => r matches Ok(x) && x@ == u@,
                None => r matches Err(e) && is_message(e, no_username_text()),
            },
        },
{
    match user_selector {
        Some(selector) => {
            if is_digit_run_str(selector) {
                match users {
                    Ok(list) => {
                        let found = storage.resolve_user(&list, selector);
                        match found {
                            Ok(u) => Ok(u),
                            Err(e) => Err(CommandError::Core(e)),
                        }
                    },
                    Err(e) => Err(CommandError::Core(e)),
                }
            } else if is_legacy_prefixed_numeric_selector(selector) {
                Err(legacy_error("user selector", selector))
            } else {
                Ok(String::from_str(selector))
            }
        },
        None => current_username(current),
    }
}

pub open spec fn root_required_text(action: Seq<char>) -> Seq<char> {
    "Root privileges required to "@ + action
}

/// Whether the caller may act on `target_user`'s data: root may; otherwise
/// only the invoking user (`current`) on their own data.
pub fn ensure_user_access(target_user: &str, action: &str, euid: u32, current: Option<String>) -> (r: Result<
    (),
    CommandError,
>)
    ensures
        euid == 0 ==> r is Ok,
        euid != 0 ==> match current {
            None => r matches Err(e) && is_message(e, no_username_text()),
            Some(u) => if u@ == target_user@ {
                r is Ok
            } else {
                r matches Err(e) && is_message(e, root_required_text(action@))
            },
        },
{
    if euid == 0 {
        return Ok(());
    }
    let me = match current_username(current) {
        Ok(u) => u,
        Err(e) => return Err(e),
    };
    if str_eq(target_user, me.as_str()) {
        return Ok(());
    }
    let mut m = String::from_str("Root privileges required to ");
    m.append(action);
    Err(CommandError::Message(m))
}

/// The group a read or delete command targets: the selected one, or the
/// default group.
pub fn resolve_group_for_read(
    storage: &FaceStorage,
    metadata: &UserMetadata,
    username: &str,
    group_selector: Option<&str>,
) -> (r: Result<FaceGroupSummary, CommandError>)
    ensures
        match group_selector {
            Some(s) => match group_resolution(metadata.groups@, username@, s@) {
                Ok(g) => r == Ok::<FaceGroupSummary, CommandError>(g),
                Err(m) => r matches Err(CommandError::Core(e)) && is_storage_error(e, m),
            },
            None => match default_group_of(*metadata) {
                Some(g) => r == Ok::<FaceGroupSummary, CommandError>(g),
                None => r matches Err(CommandError::Core(e)) && is_storage_error(e, no_default_group_text(username@)),
            },
        },
{
    let found = match group_selector {
        Some(selector) => storage.resolve_group(metadata, username, selector),
        None => storage.get_default_group(metadata, username),
    };
    match found {
        Ok(g) => Ok(g),
        Err(e) => Err(CommandError::Core(e)),
    }
}

proof fn lemma_upserted_has(groups: Seq<FaceGroupSummary>, g: FaceGroupSummary)
    ensures
        group_ids(upserted(groups, g)).contains(g.id),
{
    lemma_first_index_some(group_ids(groups), g.id);
    match first_index_of(group_ids(groups), g.id) {
        Some(i) => {
            assert(group_ids(upserted(groups, g))[i] == g.id);
        },
        None => {
            assert(group_ids(upserted(groups, g))[groups.len() as int] == g.id);
        },
    }
}

/// The group an add command puts faces in, and what became of the metadata.
#[derive(Debug)]
pub enum GroupForAdd {
    /// No selector: the default group (possibly just created or reassigned).
    Default(DefaultGroup),
    /// An existing group picked by index or by name.
    Existing(FaceGroupSummary),
    /// A group created under the given name.
    Created(FaceGroupMetadata),
}

/// The target group of an add command: without a selector the default group
/// (made sure of); a numeric selector picks by index; an `@N`/`#N` selector is
/// refused; a name picks the group of that name, or creates it.
pub fn resolve_group_for_add(
    storage: &FaceStorage,
    metadata: &mut UserMetadata,
    username: &str,
    group_selector: Option<&str>,
) -> (r: Result<GroupForAdd, CommandError>)
    ensures
        match group_selector {
            None => r matches Ok(GroupForAdd::Default(d))
                && default_group_of(*final(metadata)) == Some(d.summary_spec())
                && (old(metadata).groups@.len() == 0 ==> (d matches DefaultGroup::Created(g)
                    && g.name@ == default_group_name(username@))),
            Some(s) => if is_digit_run(s@) {
                &&& *final(metadata) == *old(metadata)
                &&& match group_resolution(old(metadata).groups@, username@, s@) {
                    Ok(g) => r == Ok::<GroupForAdd, CommandError>(GroupForAdd::Existing(g)),
                    Err(m) => r matches Err(CommandError::Core(e)) && is_storage_error(e, m),
                }
            } else if is_legacy_index(s@) {
                &&& *final(metadata) == *old(metadata)
                &&& r matches Err(e) && is_message(e, legacy_index_text("group selector"@, s@))
            } else {
                match first_string_index(group_names(old(metadata).groups@), s@) {
                    Some(i) => *final(metadata) == *old(metadata)
                        && r == Ok::<GroupForAdd, CommandError>(GroupForAdd::Existing(old(metadata).groups@[i])),
                    None => match r {
                        Ok(GroupForAdd::Created(g)) => g.name@ == trimmed(s@)
                            && group_ids(final(metadata).groups@).contains(g.id),
                        Ok(_) => false,
                        Err(CommandError::Core(e)) => *final(metadata) == *old(metadata) && e is Storage,
                        Err(CommandError::Message(_)) => false,
                    },
                }
            },
        },
        metadata_wf(*old(metadata)) ==> metadata_wf(*final(metadata)),
{
    let selector = match group_selector {
        None => {
            let d = storage.ensure_default_group(metadata, username);
            return Ok(GroupForAdd::Default(d));
        },
        Some(s) => s,
    };
    if is_digit_run_str(selector) {
        return match storage.resolve_group(metadata, username, selector) {
            Ok(g) => Ok(GroupForAdd::Existing(g)),
            Err(e) => Err(CommandError::Core(e)),
        };
    }
    if is_legacy_prefixed_numeric_selector(selector) {
        return Err(legacy_error("group selector", selector));
    }
    match storage.find_group_by_name(metadata, selector) {
        Some(g) => return Ok(GroupForAdd::Existing(g)),
        None => {},
    }
    let ghost before = *metadata;
    match storage.create_group(metadata, selector) {
        Ok(g) => {
            proof {
                lemma_upserted_has(before.groups@, summary_of(g));
            }
            Ok(GroupForAdd::Created(g))
        },
        Err(e) => Err(CommandError::Core(e)),
    }
}

} // verus!
