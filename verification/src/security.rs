//! Security checks: when face authentication is skipped, which user is the
//! invoker, and how `/etc/passwd`, lid state files and device modes are read.

use crate::config::SecurityConfig;
use crate::error::Error;
use crate::text::{all_digits, digits_value, is_digit_run, trimmed, str_eq, trim};
use crate::selector::parse_digits;
use vstd::prelude::*;
use vstd::string::StrSliceExecFns;
use vstd::string::StringExecFns;

verus! {

/// A security-check error whose message is `m`.
pub open spec fn is_security_error(e: Error, m: Seq<char>) -> bool {
    e matches Error::SecurityCheck(x) && x@ == m
}

pub open spec fn ssh_refusal_text() -> Seq<char> {
    "Face authentication disabled for SSH sessions"@
}

pub open spec fn lid_refusal_text() -> Seq<char> {
    "Face authentication disabled when lid is closed"@
}

/// Decides whether authentication may proceed, given whether the session is a
/// remote (SSH) one and whether the laptop lid is closed.
pub fn check_security(config: &SecurityConfig, ssh_session: bool, lid_closed: bool) -> (r: Result<(), Error>)
    ensures
        config.ignore_ssh && ssh_session ==> (r matches Err(e) && is_security_error(e, ssh_refusal_text())),
        !(config.ignore_ssh && ssh_session) && config.ignore_closed_lid && lid_closed
            ==> (r matches Err(e) && is_security_error(e, lid_refusal_text())),
        r is Ok <==> !(config.ignore_ssh && ssh_session) && !(config.ignore_closed_lid && lid_closed),
{
    if config.ignore_ssh && ssh_session {
        return Err(Error::SecurityCheck(String::from_str("Face authentication disabled for SSH sessions")));
    }
    if config.ignore_closed_lid && lid_closed {
        return Err(Error::SecurityCheck(String::from_str("Face authentication disabled when lid is closed")));
    }
    Ok(())
}

/// Whether the session is a remote (SSH) one: any of `SSH_CONNECTION`,
/// `SSH_CLIENT` and `SSH_TTY` is set.
pub fn is_ssh_session(ssh_connection_set: bool, ssh_client_set: bool, ssh_tty_set: bool) -> (r: bool)
    ensures
        r == (ssh_connection_set || ssh_client_set || ssh_tty_set),
{
    ssh_connection_set || ssh_client_set || ssh_tty_set
}

/// The first source holding a non-empty name.
pub open spec fn first_named(sources: Seq<Option<String>>) -> Option<String>
    decreases sources.len(),
{
    if sources.len() == 0 {
        None
    } else if sources[0] matches Some(u) && u@.len() > 0 {
        sources[0]
    } else {
        first_named(sources.drop_first())
    }
}

fn non_empty(user: Option<String>) -> (r: Option<String>)
    ensures
        r == (if user matches Some(u) && u@.len() > 0 { user } else { None }),
{
    match user {
        Some(u) => {
            if u.as_str().unicode_len() > 0 {
                Some(u)
            } else {
                None
            }
        },
        None => None,
    }
}

/// The invoking user: the first non-empty of `SUDO_USER`, `DOAS_USER`, the
/// `PKEXEC_UID` user, the real-uid user, `USER`, `LOGNAME`.
pub fn resolve_current_user_from_sources(
    sudo_user: Option<String>,
    doas_user: Option<String>,
    pkexec_user: Option<String>,
    real_uid_user: Option<String>,
    user_env: Option<String>,
    logname_env: Option<String>,
) -> (r: Option<String>)
    ensures
        r == first_named(seq![sudo_user, doas_user, pkexec_user, real_uid_user, user_env, logname_env]),
{
    let ghost all = seq![sudo_user, doas_user, pkexec_user, real_uid_user, user_env, logname_env];
    proof {
        reveal_with_fuel(first_named, 7);
        assert(all.drop_first() =~= seq![doas_user, pkexec_user, real_uid_user, user_env, logname_env]);
        assert(all.drop_first().drop_first() =~= seq![pkexec_user, real_uid_user, user_env, logname_env]);
        assert(all.drop_first().drop_first().drop_first() =~= seq![real_uid_user, user_env, logname_env]);
        assert(all.drop_first().drop_first().drop_first().drop_first() =~= seq![user_env, logname_env]);
        assert(all.drop_first().drop_first().drop_first().drop_first().drop_first() =~= seq![logname_env]);
        assert(seq![logname_env].drop_first() =~= Seq::<Option<String>>::empty());
    }
    if let Some(u) = non_empty(sudo_user) {
        return Some(u);
    }
    if let Some(u) = non_empty(doas_user) {
        return Some(u);
    }
    if let Some(u) = non_empty(pkexec_user) {
        return Some(u);
    }
    if let Some(u) = non_empty(real_uid_user) {
        return Some(u);
    }
    if let Some(u) = non_empty(user_env) {
        return Some(u);
    }
    non_empty(logname_env)
}

// ---------------------------------------------------------------------------
// Text splitting

/// Position of the first `c` in `s` at or after `from`, or `s.len()`.
pub open spec fn find_from(s: Seq<char>, c: char, from: int) -> int
    decreases s.len() - from,
{
    if from >= s.len() {
        s.len() as int
    } else if s[from] == c {
        from
    } else {
        find_from(s, c, from + 1)
    }
}

/// `find_from` gives the first position from `from` on that holds `c`, or the length.
pub proof fn lemma_find_from(s: Seq<char>, c: char, from: int)
    requires
        0 <= from <= s.len(),
    ensures
        from <= find_from(s, c, from) <= s.len(),
        find_from(s, c, from) < s.len() ==> s[find_from(s, c, from)] == c,
        forall|k: int| from <= k < find_from(s, c, from) ==> s[k] != c,
    decreases s.len() - from,
{
    if from < s.len() && s[from] != c {
        lemma_find_from(s, c, from + 1);
    }
}

fn find_char_from(s: &str, c: char, from: usize) -> (r: usize)
    requires
        from <= s@.len(),
    ensures
        r == find_from(s@, c, from as int),
{
    let n = s.unicode_len();
    let mut i = from;
    while i < n && s.get_char(i) != c
        invariant
            n == s@.len(),
            from <= i <= n,
            find_from(s@, c, from as int) == find_from(s@, c, i as int),
        decreases n - i,
    {
        i = i + 1;
    }
    i
}

/// A line as `str::lines` yields it: without its `\n` and a `\r` before it.
pub open spec fn strip_cr(line: Seq<char>) -> Seq<char> {
    if line.len() > 0 && line.last() == '\r' { line.drop_last() } else { line }
}

/// The lines of `s` from position `from`, as `str::lines` splits them.
pub open spec fn lines_from(s: Seq<char>, from: int) -> Seq<Seq<char>>
    decreases s.len() - from,
{
    if from >= s.len() || from < 0 {
        Seq::empty()
    } else {
        proof {
            lemma_find_from(s, '\n', from);
        }
        let end = find_from(s, '\n', from);
        if end < s.len() {
            seq![strip_cr(s.subrange(from, end))] + lines_from(s, end + 1)
        } else {
            seq![strip_cr(s.subrange(from, end))]
        }
    }
}

/// The fields of a line split at `:`, as `str::split(':')` yields them.
pub open spec fn fields_from(s: Seq<char>, from: int) -> Seq<Seq<char>>
    decreases s.len() - from,
{
    if from > s.len() || from < 0 {
        Seq::empty()
    } else {
        proof {
            lemma_find_from(s, ':', from);
        }
        let end = find_from(s, ':', from);
        if end < s.len() {
            seq![s.subrange(from, end)] + fields_from(s, end + 1)
        } else {
            seq![s.subrange(from, end)]
        }
    }
}

/// The fields of a line.
pub open spec fn fields(line: Seq<char>) -> Seq<Seq<char>> {
    fields_from(line, 0)
}

/// The text before the first `:` (the whole line when there is none).
pub open spec fn first_field(line: Seq<char>) -> Seq<char> {
    line.subrange(0, find_from(line, ':', 0))
}

fn strip_cr_str(line: &str) -> (r: &str)
    ensures
        r@ == strip_cr(line@),
{
    let n = line.unicode_len();
    if n > 0 && line.get_char(n - 1) == '\r' {
        let r = line.substring_char(0, n - 1);
        assert(r@ =~= line@.drop_last());
        r
    } else {
        line
    }
}

/// The lines of `content`, in order.
pub fn split_lines(content: &str) -> (r: Vec<String>)
    ensures
        r@.map_values(|l: String| l@) == lines_from(content@, 0),
{
    let n = content.unicode_len();
    let mut out: Vec<String> = Vec::new();
    let mut pos: usize = 0;
    while pos < n
        invariant
            n == content@.len(),
            pos <= n,
            out@.map_values(|l: String| l@) + lines_from(content@, pos as int) == lines_from(content@, 0),
        decreases n - pos,
    {
        let end = find_char_from(content, '\n', pos);
        proof {
            lemma_find_from(content@, '\n', pos as int);
        }
        let piece = content.substring_char(pos, end);
        let line = strip_cr_str(piece);
        let ghost before = out@.map_values(|l: String| l@);
        out.push(String::from_str(line));
        assert(out@.map_values(|l: String| l@) =~= before.push(strip_cr(content@.subrange(pos as int, end as int))));
        if end < n {
            assert(lines_from(content@, pos as int) == seq![strip_cr(content@.subrange(pos as int, end as int))]
                + lines_from(content@, end + 1));
            assert(out@.map_values(|l: String| l@) + lines_from(content@, end + 1) =~= before + lines_from(content@, pos as int));
            pos = end + 1;
        } else {
            assert(lines_from(content@, end as int) =~= Seq::<Seq<char>>::empty());
            assert(out@.map_values(|l: String| l@) + lines_from(content@, end as int) =~= before + lines_from(content@, pos as int));
            pos = end;
        }
    }
    assert(lines_from(content@, pos as int) =~= Seq::<Seq<char>>::empty());
    assert(out@.map_values(|l: String| l@) =~= lines_from(content@, 0));
    out
}

/// The fields of `line` split at `:`.
pub fn split_fields(line: &str) -> (r: Vec<String>)
    ensures
        r@.map_values(|l: String| l@) == fields(line@),
{
    let n = line.unicode_len();
    let mut out: Vec<String> = Vec::new();
    let mut pos: usize = 0;
    loop
        invariant
            n == line@.len(),
            pos <= n,
            out@.map_values(|l: String| l@) + fields_from(line@, pos as int) == fields(line@),
        decreases n - pos,
    {
        let end = find_char_from(line, ':', pos);
        proof {
            lemma_find_from(line@, ':', pos as int);
        }
        let piece = line.substring_char(pos, end);
        let ghost before = out@.map_values(|l: String| l@);
        out.push(String::from_str(piece));
        assert(out@.map_values(|l: String| l@) =~= before.push(line@.subrange(pos as int, end as int)));
        if end < n {
            assert(out@.map_values(|l: String| l@) + fields_from(line@, end + 1) =~= before + fields_from(line@, pos as int));
            pos = end + 1;
        } else {
            assert(fields_from(line@, pos as int) == seq![line@.subrange(pos as int, end as int)]);
            assert(out@.map_values(|l: String| l@) =~= fields(line@)) by {
                assert(before + seq![line@.subrange(pos as int, end as int)] =~= fields(line@));
            }
            return out;
        }
    }
}

// ---------------------------------------------------------------------------
// /etc/passwd

/// Some line of the passwd text names `username` in its first field.
pub open spec fn passwd_names(content: Seq<char>, username: Seq<char>) -> bool {
    exists|i: int| 0 <= i < lines_from(content, 0).len()
        && #[trigger] first_field(lines_from(content, 0)[i]) == username
}

/// Whether the passwd text lists `username`.
pub fn user_exists(passwd: &str, username: &str) -> (r: bool)
    ensures
        r == passwd_names(passwd@, username@),
{
    let lines = split_lines(passwd);
    let ghost ls = lines_from(passwd@, 0);
    let mut i: usize = 0;
    while i < lines.len()
        invariant
            i <= lines.len(),
            lines@.map_values(|l: String| l@) == ls,
            ls == lines_from(passwd@, 0),
            forall|j: int| 0 <= j < i ==> #[trigger] first_field(ls[j]) != username@,
        decreases lines.len() - i,
    {
        let line = lines[i].as_str();
        assert(ls[i as int] == line@);
        let end = find_char_from(line, ':', 0);
        proof {
            lemma_find_from(line@, ':', 0);
        }
        let name = line.substring_char(0, end);
        if str_eq(name, username) {
            assert(first_field(ls[i as int]) == username@);
            return true;
        }
        i = i + 1;
    }
    false
}

/// Value of `+digits` or `digits` as `u32::from_str` reads it; `None` when the
/// text is not such a number or the value exceeds `u32::MAX`.
pub open spec fn u32_text_value(s: Seq<char>) -> Option<u32> {
    let d = if s.len() > 0 && s[0] == '+' { s.drop_first() } else { s };
    if is_digit_run(d) && digits_value(d) <= u32::MAX { Some(digits_value(d) as u32) } else { None }
}

/// Reads a decimal `u32` (an optional leading `+`, then digits).
pub fn parse_u32(s: &str) -> (r: Option<u32>)
    ensures
        r == u32_text_value(s@),
{
    let n = s.unicode_len();
    let d = if n > 0 && s.get_char(0) == '+' { s.substring_char(1, n) } else { s };
    proof {
        if n > 0 && s@[0] == '+' {
            assert(d@ =~= s@.drop_first());
        }
    }
    if !crate::text::is_digit_run_str(d) {
        return None;
    }
    match parse_digits(d) {
        Some(v) => {
            if v <= 4294967295usize {
                Some(v as u32)
            } else {
                None
            }
        },
        None => None,
    }
}

/// The name on the first line whose third field is the uid `uid`.
pub open spec fn uid_owner(lines: Seq<Seq<char>>, uid: u32) -> Option<Seq<char>>
    decreases lines.len(),
{
    if lines.len() == 0 {
        None
    } else if fields(lines[0]).len() >= 3 && u32_text_value(fields(lines[0])[2]) == Some(uid) {
        Some(fields(lines[0])[0])
    } else {
        uid_owner(lines.drop_first(), uid)
    }
}

/// The username that the passwd text gives for `uid`.
pub fn uid_to_username(passwd: &str, uid: u32) -> (r: Option<String>)
    ensures
        r matches Some(u) ==> uid_owner(lines_from(passwd@, 0), uid) == Some(u@),
        r is None ==> uid_owner(lines_from(passwd@, 0), uid) is None,
{
    let lines = split_lines(passwd);
    let ghost ls = lines_from(passwd@, 0);
    let mut i: usize = 0;
    assert(ls.skip(0) =~= ls);
    while i < lines.len()
        invariant
            i <= lines.len(),
            lines@.map_values(|l: String| l@) == ls,
            ls == lines_from(passwd@, 0),
            uid_owner(ls.skip(i as int), uid) == uid_owner(ls, uid),
        decreases lines.len() - i,
    {
        let line = lines[i].as_str();
        assert(ls[i as int] == line@);
        assert(ls.skip(i as int)[0] == line@);
        assert(ls.skip(i as int).drop_first() =~= ls.skip(i + 1));
        let parts = split_fields(line);
        assert(parts@.map_values(|l: String| l@) == fields(line@));
        if parts.len() >= 3 {
            assert(parts@[2]@ == fields(line@)[2]);
            if parse_u32(parts[2].as_str()) == Some(uid) {
                assert(parts@[0]@ == fields(line@)[0]);
                return Some(parts[0].clone());
            }
        }
        i = i + 1;
    }
    assert(ls.skip(i as int) =~= Seq::<Seq<char>>::empty());
    None
}

// ---------------------------------------------------------------------------
// Lid state

/// `s` holds `pat` somewhere.
pub open spec fn has_substring(s: Seq<char>, pat: Seq<char>) -> bool {
    exists|i: int| 0 <= i && i + pat.len() <= s.len() && #[trigger] s.subrange(i, i + pat.len()) == pat
}

/// Whether `pat` occurs in `s`.
pub fn contains_str(s: &str, pat: &str) -> (r: bool)
    ensures
        r == has_substring(s@, pat@),
{
    let n = s.unicode_len();
    let m = pat.unicode_len();
    if m > n {
        assert(!has_substring(s@, pat@));
        return false;
    }
    if m == 0 {
        assert(s@.subrange(0, 0 + pat@.len() as int) =~= pat@);
        return true;
    }
    let last = n - m;
    let mut i: usize = 0;
    while i <= last
        invariant
            n == s@.len(),
            m == pat@.len(),
            1 <= m <= n,
            last == n - m,
            i <= last + 1,
            forall|k: int| 0 <= k < i ==> #[trigger] s@.subrange(k, k + m) != pat@,
        decreases last + 1 - i,
    {
        let window = s.substring_char(i, i + m);
        if str_eq(window, pat) {
            return true;
        }
        i = i + 1;
    }
    false
}

/// What an ACPI lid state file says: closed, open, or nothing usable.
pub open spec fn acpi_lid_state(content: Seq<char>) -> Option<bool> {
    if has_substring(content, "closed"@) {
        Some(true)
    } else if has_substring(content, "open"@) {
        Some(false)
    } else {
        None
    }
}

/// The first ACPI file that says anything decides.
pub open spec fn acpi_decision(files: Seq<Option<String>>) -> Option<bool>
    decreases files.len(),
{
    if files.len() == 0 {
        None
    } else if files[0] matches Some(c) && acpi_lid_state(c@) is Some {
        acpi_lid_state(files[0]->Some_0@)
    } else {
        acpi_decision(files.drop_first())
    }
}

/// Whether the laptop lid is closed: the ACPI lid state files (in the order
/// they are tried; `None` for one that could not be read) decide when one says
/// `closed` or `open`; otherwise a power-supply `lid_state` file whose trimmed
/// text is `closed` says closed; otherwise the lid counts as open.
pub fn is_lid_closed(acpi_states: &Vec<Option<String>>, power_supply_states: &Vec<String>) -> (r: bool)
    ensures
        r == match acpi_decision(acpi_states@) {
            Some(b) => b,
            None => exists|i: int| 0 <= i < power_supply_states@.len()
                && trimmed(#[trigger] power_supply_states@[i]@) == "closed"@,
        },
{
    let mut i: usize = 0;
    assert(acpi_states@.skip(0) =~= acpi_states@);
    while i < acpi_states.len()
        invariant
            i <= acpi_states.len(),
            acpi_decision(acpi_states@.skip(i as int)) == acpi_decision(acpi_states@),
        decreases acpi_states.len() - i,
    {
        assert(acpi_states@.skip(i as int)[0] == acpi_states@[i as int]);
        assert(acpi_states@.skip(i as int).drop_first() =~= acpi_states@.skip(i + 1));
        match &acpi_states[i] {
            Some(content) => {
                if contains_str(content.as_str(), "closed") {
                    return true;
                }
                if contains_str(content.as_str(), "open") {
                    return false;
                }
            },
            None => {},
        }
        i = i + 1;
    }
    assert(acpi_states@.skip(i as int) =~= Seq::<Option<String>>::empty());
    let mut k: usize = 0;
    while k < power_supply_states.len()
        invariant
            acpi_decision(acpi_states@) is None,
            k <= power_supply_states.len(),
            forall|j: int| 0 <= j < k ==> trimmed(#[trigger] power_supply_states@[j]@) != "closed"@,
        decreases power_supply_states.len() - k,
    {
        if str_eq(trim(power_supply_states[k].as_str()), "closed") {
            assert(trimmed(power_supply_states@[k as int]@) == "closed"@);
            return true;
        }
        k = k + 1;
    }
    false
}

// ---------------------------------------------------------------------------
// Camera device

pub open spec fn is_char_device(mode: u32) -> bool {
    mode & 0o170000 == 0o020000
}

pub open spec fn is_camera_error(e: Error, m: Seq<char>) -> bool {
    e matches Error::Camera(x) && x@ == m
}

/// Decides whether a camera device is usable: it must exist, its metadata must
/// be readable (`Err` holds the reading error's text) and it must be a
/// character device.
pub fn check_camera_access(device: &str, exists: bool, mode: Result<u32, String>) -> (r: Result<(), Error>)
    ensures
        !exists ==> (r matches Err(e) && is_camera_error(e, "Camera device not found: "@ + device@)),
        exists && mode is Err ==> (r matches Err(e) && is_camera_error(
            e,
            "Cannot access camera device "@ + device@ + ": "@ + mode->Err_0@,
        )),
        exists && (mode matches Ok(m) && !is_char_device(m)) ==> (r matches Err(e) && is_camera_error(
            e,
            "Not a character device: "@ + device@,
        )),
        r is Ok <==> exists && (mode matches Ok(m) && is_char_device(m)),
{
    if !exists {
        let mut m = String::from_str("Camera device not found: ");
        m.append(device);
        return Err(Error::Camera(m));
    }
    match mode {
        Ok(bits) => {
            if bits & 0o170000 != 0o020000 {
                let mut m = String::from_str("Not a character device: ");
                m.append(device);
                return Err(Error::Camera(m));
            }
            Ok(())
        },
        Err(reason) => {
            let mut m = String::from_str("Cannot access camera device ");
            m.append(device);
            m.append(": ");
            m.append(reason.as_str());
            Err(Error::Camera(m))
        },
    }
}


/// Whether a source holds a non-empty name.
pub open spec fn names_someone(source: Option<String>) -> bool {
    source matches Some(u) && u@.len() > 0
}

/// The user is taken from the earliest source, in the given order, that holds
/// a non-empty name, whatever its position and however many sources follow;
/// with no such source there is no user.
pub proof fn lemma_first_named_order(sources: Seq<Option<String>>, i: int)
    ensures
        0 <= i < sources.len() && names_someone(sources[i])
            && (forall|j: int| 0 <= j < i ==> !names_someone(#[trigger] sources[j]))
            ==> first_named(sources) == sources[i],
        (forall|j: int| 0 <= j < sources.len() ==> !names_someone(#[trigger] sources[j]))
            ==> first_named(sources) is None,
        first_named(sources) matches Some(u) ==> u@.len() > 0 && sources.contains(Some(u)),
    decreases sources.len(),
{
    if sources.len() > 0 {
        let rest = sources.drop_first();
        lemma_first_named_order(rest, i - 1);
        if 0 < i < sources.len() && (forall|j: int| 0 <= j < i ==> !names_someone(#[trigger] sources[j])) {
            assert(!names_someone(sources[0]));
            assert forall|j: int| 0 <= j < i - 1 implies !names_someone(#[trigger] rest[j]) by {
                assert(rest[j] == sources[j + 1]);
            }
            assert(rest[i - 1] == sources[i]);
        }
        if forall|j: int| 0 <= j < sources.len() ==> !names_someone(#[trigger] sources[j]) {
            assert(!names_someone(sources[0]));
            assert forall|j: int| 0 <= j < rest.len() implies !names_someone(#[trigger] rest[j]) by {
                assert(rest[j] == sources[j + 1]);
            }
        }
        if !names_someone(sources[0]) {
            if let Some(u) = first_named(rest) {
                let k = choose|k: int| 0 <= k < rest.len() && rest[k] == Some(u);
                assert(sources[k + 1] == Some(u));
            }
        } else {
            assert(sources[0] == sources[0]);
        }
    }
}

} // verus!
