//! How the daemon answers one request line: by its `msg_type`, either with
//! a fixed answer, by cancelling the current authentication, or by running
//! an authentication.

use crate::control::{cancel_hits, cancelled, AuthControl};
use crate::models::{AuthRequest, CancelRequest};
use crate::text::str_eq;
use vstd::prelude::*;
use vstd::string::StringExecFns;

verus! {

/// The string that `serde_json` reads under `key` from a line: `None` when
/// the line is not a JSON value or holds no string under that key.
pub uninterp spec fn json_str_field(line: Seq<char>, key: Seq<char>) -> Option<Seq<char>>;

/// Parses `line` with `serde_json::from_str::<serde_json::Value>`, then
/// takes `Value::get(key)` and `Value::as_str`. The result is that of the
/// parser on these arguments alone, so it is named by `json_str_field`.
#[verifier::external_body]
fn json_string_field(line: &str, key: &str) -> (r: Option<String>)
    ensures
        match r {
            Some(t) => json_str_field(line@, key@) == Some(t@),
            None => json_str_field(line@, key@) is None,
        },
{
    match serde_json::from_str::<serde_json::Value>(line) {
        Ok(value) => match value.get(key) {
            Some(v) => match v.as_str() {
                Some(t) => Some(t.to_string()),
                None => None,
            },
            None => None,
        },
        Err(_) => None,
    }
}

/// The `msg_type` of a request line, if it has one.
pub fn extract_message_type(line: &str) -> (r: Option<String>)
    ensures
        match r {
            Some(t) => json_str_field(line@, "msg_type"@) == Some(t@),
            None => json_str_field(line@, "msg_type"@) is None,
        },
{
    json_string_field(line, "msg_type")
}

/// What the daemon does with a request.
#[derive(Debug)]
pub enum ServerReply {
    /// Answer at once.
    Answer { success: bool, message: String },
    /// Run the authentication and answer with its outcome.
    Authenticate(AuthRequest),
}

/// `r` answers at once with this outcome and message.
pub open spec fn answers(r: ServerReply, success: bool, message: Seq<char>) -> bool {
    r matches ServerReply::Answer { success: s, message: m } && s == success && m@ == message
}

pub open spec fn unsupported_text() -> Seq<char> {
    "Unsupported message type"@
}

fn answer(success: bool, message: &str) -> (r: ServerReply)
    ensures
        answers(r, success, message@),
{
    ServerReply::Answer { success, message: String::from_str(message) }
}

/// Answers a request whose `msg_type` was read as `msg_type`; `auth` and
/// `cancel` are the line read as an authentication or a cancellation
/// request (`None` when it is not one). A valid cancellation asks the
/// current session to stop.
pub fn handle_request(
    control: &mut AuthControl,
    msg_type: Option<String>,
    auth: Option<AuthRequest>,
    cancel: Option<CancelRequest>,
) -> (r: ServerReply)
    ensures
        match msg_type {
            None => answers(r, false, "Invalid request format"@) && final(control)@ == old(control)@,
            Some(t) => if t@ == "auth"@ {
                &&& final(control)@ == old(control)@
                &&& match auth {
                    None => answers(r, false, "Invalid auth request format"@),
                    Some(req) => if req.msg_type@ == "auth"@ {
                        r == ServerReply::Authenticate(req)
                    } else {
                        answers(r, false, unsupported_text())
                    },
                }
            } else if t@ == "cancel"@ {
                match cancel {
                    None => answers(r, false, "Invalid cancel request format"@) && final(control)@ == old(control)@,
                    Some(req) => if req.msg_type@ == "cancel"@ {
                        &&& final(control)@ == cancelled(old(control)@)
                        &&& if cancel_hits(old(control)@) {
                            answers(r, true, "Cancellation requested"@)
                        } else {
                            answers(r, false, "No active authentication to cancel"@)
                        }
                    } else {
                        answers(r, false, unsupported_text()) && final(control)@ == old(control)@
                    },
                }
            } else {
                answers(r, false, unsupported_text()) && final(control)@ == old(control)@
            },
        },
{
    let t = match msg_type {
        None => return answer(false, "Invalid request format"),
        Some(t) => t,
    };
    if str_eq(t.as_str(), "auth") {
        match auth {
            None => answer(false, "Invalid auth request format"),
            Some(req) => {
                if str_eq(req.msg_type.as_str(), "auth") {
                    ServerReply::Authenticate(req)
                } else {
                    answer(false, "Unsupported message type")
                }
            },
        }
    } else if str_eq(t.as_str(), "cancel") {
        match cancel {
            None => answer(false, "Invalid cancel request format"),
            Some(req) => {
                if !str_eq(req.msg_type.as_str(), "cancel") {
                    answer(false, "Unsupported message type")
                } else if control.cancel_current() {
                    answer(true, "Cancellation requested")
                } else {
                    answer(false, "No active authentication to cancel")
                }
            },
        }
    } else {
        answer(false, "Unsupported message type")
    }
}

} // verus!
