//! Names and selectors: identifier rules, numeric index selectors and the
//! legacy `@N` / `#N` forms that are refused.

use crate::error::Error;
use crate::text::{all_digits, digits_value, digit_value, is_alnum_char, is_alpha_char, is_digit_char, is_digit_run, is_alpha, is_digit, is_digit_run_str};
use vstd::prelude::*;
use vstd::string::StrSliceExecFns;
use vstd::string::StringExecFns;

verus! {

/// `[A-Za-z_][A-Za-z0-9_]*`
pub open spec fn is_identifier(s: Seq<char>) -> bool {
    &&& s.len() > 0
    &&& (is_alpha_char(s[0]) || s[0] == '_')
    &&& forall|i: int| 1 <= i < s.len() ==> (is_alnum_char(#[trigger] s[i]) || s[i] == '_')
}

/// The rule that names must follow, as shown to users.
pub open spec fn identifier_rule() -> Seq<char> {
    "[A-Za-z_][A-Za-z0-9_]*"@
}

/// Message for an empty name of the given kind.
pub open spec fn empty_name_text(kind: Seq<char>) -> Seq<char> {
    kind + " cannot be empty"@
}

/// Message for a name that breaks the identifier rule.
pub open spec fn invalid_name_text(kind: Seq<char>, name: Seq<char>) -> Seq<char> {
    kind + " '"@ + name + "' is invalid. Names must match "@ + identifier_rule()
}

/// Two errors carry the same kind and message.
pub open spec fn same_error(a: Error, b: Error) -> bool {
    match (a, b) {
        (Error::Storage(x), Error::Storage(y)) => x@ == y@,
        (Error::Config(x), Error::Config(y)) => x@ == y@,
        (Error::SecurityCheck(x), Error::SecurityCheck(y)) => x@ == y@,
        (Error::Recognition(x), Error::Recognition(y)) => x@ == y@,
        (Error::Ipc(x), Error::Ipc(y)) => x@ == y@,
        (Error::AntiSpoofing(x), Error::AntiSpoofing(y)) => x@ == y@,
        _ => false,
    }
}

/// A storage error whose message is `m`.
pub open spec fn is_storage_error(e: Error, m: Seq<char>) -> bool {
    e matches Error::Storage(x) && x@ == m
}

/// Whether `name` is an ASCII identifier.
pub fn is_ascii_identifier(name: &str) -> (r: bool)
    ensures
        r == is_identifier(name@),
{
    let n = name.unicode_len();
    if n == 0 {
        return false;
    }
    let first = name.get_char(0);
    if !(is_alpha(first) || first == '_') {
        return false;
    }
    let mut i: usize = 1;
    while i < n
        invariant
            n == name@.len(),
            1 <= i <= n,
            forall|j: int| 1 <= j < i ==> (is_alnum_char(#[trigger] name@[j]) || name@[j] == '_'),
        decreases n - i,
    {
        let c = name.get_char(i);
        if !(is_alpha(c) || is_digit(c) || c == '_') {
            return false;
        }
        i = i + 1;
    }
    true
}

/// Checks that `name` is a non-empty identifier; `kind` names what is checked
/// ("Face label", "Group name") in the error message.
pub fn validate_selector_name(name: &str, kind: &str) -> (r: Result<(), Error>)
    ensures
        r is Ok <==> is_identifier(name@),
        name@.len() == 0 ==> is_storage_error(r->Err_0, empty_name_text(kind@)),
        name@.len() != 0 && !is_identifier(name@) ==> is_storage_error(r->Err_0, invalid_name_text(kind@, name@)),
{
    if name.unicode_len() == 0 {
        let mut m = String::from_str(kind);
        m.append(" cannot be empty");
        return Err(Error::Storage(m));
    }
    if !is_ascii_identifier(name) {
        let mut m = String::from_str(kind);
        m.append(" '");
        m.append(name);
        m.append("' is invalid. Names must match ");
        m.append("[A-Za-z_][A-Za-z0-9_]*");
        assert(m@ =~= invalid_name_text(kind@, name@));
        return Err(Error::Storage(m));
    }
    Ok(())
}

/// The digits after a leading `@` or `#`, if the selector has one.
pub open spec fn legacy_rest(s: Seq<char>) -> Option<Seq<char>> {
    if s.len() > 0 && (s[0] == '@' || s[0] == '#') {
        Some(s.drop_first())
    } else {
        None
    }
}

/// `@N` or `#N` with a non-empty run of digits `N`.
pub open spec fn is_legacy_index(s: Seq<char>) -> bool {
    legacy_rest(s) matches Some(rest) && is_digit_run(rest)
}

/// Message for a digit selector whose value does not fit in `usize`.
pub open spec fn bad_index_text(scope: Seq<char>, selector: Seq<char>) -> Seq<char> {
    "Invalid "@ + scope + " '"@ + selector + "'"@
}

/// Message for a refused `@N` / `#N` selector.
pub open spec fn legacy_index_text(scope: Seq<char>, selector: Seq<char>) -> Seq<char> {
    "Invalid "@ + scope + " '"@ + selector + "'. Use bare numeric indexes like '"@
        + selector.drop_first() + "'"@
}

/// Parses a run of digits into a `usize`; `None` on overflow.
pub fn parse_digits(s: &str) -> (r: Option<usize>)
    requires
        all_digits(s@),
    ensures
        r is Some <==> digits_value(s@) <= usize::MAX,
        r matches Some(v) ==> v == digits_value(s@),
{
    let n = s.unicode_len();
    let mut value: usize = 0;
    let mut i: usize = 0;
    let mut overflow = false;
    while i < n
        invariant
            n == s@.len(),
            i <= n,
            all_digits(s@),
            !overflow ==> value == digits_value(s@.take(i as int)),
            overflow ==> digits_value(s@.take(i as int)) > usize::MAX,
        decreases n - i,
    {
        let c = s.get_char(i);
        assert(is_digit_char(s@[i as int]));
        assert(s@.take(i + 1).drop_last() =~= s@.take(i as int));
        let d = (c as u32 - '0' as u32) as usize;
        assert(d == digit_value(c));
        if !overflow {
            if value > (usize::MAX - d) / 10 {
                overflow = true;
                assert(value * 10 + d > usize::MAX) by (nonlinear_arith)
                    requires value > (usize::MAX - d) / 10, d < 10;
            } else {
                assert(value * 10 + d <= usize::MAX) by (nonlinear_arith)
                    requires value <= (usize::MAX - d) / 10, d < 10;
                value = value * 10 + d;
            }
        } else {
            assert(digits_value(s@.take(i + 1)) >= digits_value(s@.take(i as int)) * 10);
            assert(digits_value(s@.take(i as int)) * 10 >= digits_value(s@.take(i as int)))
                by (nonlinear_arith);
        }
        i = i + 1;
    }
    assert(s@.take(n as int) =~= s@);
    if overflow { None } else { Some(value) }
}

/// Reads a selector as a list index.
/// `Some(Ok(i))` for a run of digits; `Some(Err(..))` for digits too large for
/// `usize` and for the legacy `@N` / `#N` forms; `None` for anything else (a name).
pub fn parse_index_selector(selector: &str, scope: &str) -> (r: Option<Result<usize, Error>>)
    ensures
        is_digit_run(selector@) && digits_value(selector@) <= usize::MAX
            ==> r == Some(Ok::<usize, Error>(digits_value(selector@) as usize)),
        is_digit_run(selector@) && digits_value(selector@) > usize::MAX
            ==> (r matches Some(Err(e)) && is_storage_error(e, bad_index_text(scope@, selector@))),
        !is_digit_run(selector@) && is_legacy_index(selector@)
            ==> (r matches Some(Err(e)) && is_storage_error(e, legacy_index_text(scope@, selector@))),
        !is_digit_run(selector@) && !is_legacy_index(selector@) ==> r is None,
{
    if is_digit_run_str(selector) {
        return match parse_digits(selector) {
            Some(v) => Some(Ok(v)),
            None => {
                let mut m = String::from_str("Invalid ");
                m.append(scope);
                m.append(" '");
                m.append(selector);
                m.append("'");
                Some(Err(Error::Storage(m)))
            },
        };
    }
    let n = selector.unicode_len();
    if n == 0 {
        return None;
    }
    let first = selector.get_char(0);
    if first != '@' && first != '#' {
        return None;
    }
    let rest = selector.substring_char(1, n);
    assert(rest@ =~= selector@.drop_first());
    if is_digit_run_str(rest) {
        let mut m = String::from_str("Invalid ");
        m.append(scope);
        m.append(" '");
        m.append(selector);
        m.append("'. Use bare numeric indexes like '");
        m.append(rest);
        m.append("'");
        assert(m@ =~= legacy_index_text(scope@, selector@));
        return Some(Err(Error::Storage(m)));
    }
    None
}

/// Whether `selector` is a refused `@N` / `#N` index form.
pub fn is_legacy_prefixed_numeric_selector(selector: &str) -> (r: bool)
    ensures
        r == is_legacy_index(selector@),
{
    let n = selector.unicode_len();
    if n == 0 {
        return false;
    }
    let first = selector.get_char(0);
    if first != '@' && first != '#' {
        return false;
    }
    let rest = selector.substring_char(1, n);
    assert(rest@ =~= selector@.drop_first());
    is_digit_run_str(rest)
}

/// The group name used for a user's first group: the username when it is an
/// identifier, otherwise `default`.
pub open spec fn default_group_name(username: Seq<char>) -> Seq<char> {
    if is_identifier(username) { username } else { "default"@ }
}

/// Name of the group created for a user who has none.
pub fn default_group_name_for_user<'a>(username: &'a str) -> (r: &'a str)
    ensures
        r@ == default_group_name(username@),
{
    if is_ascii_identifier(username) {
        username
    } else {
        "default"
    }
}


/// A name is an identifier exactly when it matches `[A-Za-z_][A-Za-z0-9_]*`:
/// it is not empty, it starts with an ASCII letter of either case or `_`, and
/// every later character is an ASCII letter, an ASCII digit or `_`.
pub proof fn lemma_identifier_rule(s: Seq<char>)
    ensures
        is_identifier(s) <==> {
            &&& s.len() > 0
            &&& ('a' <= s[0] && s[0] <= 'z') || ('A' <= s[0] && s[0] <= 'Z') || s[0] == '_'
            &&& forall|i: int| 1 <= i < s.len() ==> {
                let c = #[trigger] s[i];
                ('a' <= c && c <= 'z') || ('A' <= c && c <= 'Z') || ('0' <= c && c <= '9') || c == '_'
            }
        },
{
}

} // verus!
