//! The PAM side: how the daemon's answer becomes a PAM result, and the
//! settings of the request the module sends.

use crate::models::AuthRequest;
use vstd::prelude::*;
use vstd::string::StringExecFns;

verus! {

/// An error talking to the daemon, with its description.
#[derive(Debug)]
pub struct IpcError(pub String);

impl IpcError {
    /// The text shown for the error: `IPC error: ` and the description.
    pub fn message(&self) -> (r: String)
        ensures
            r@ == "IPC error: "@ + self.0@,
    {
        let mut s = String::from_str("IPC error: ");
        s.append(self.0.as_str());
        s
    }
}

/// The results this module gives back to PAM.
#[derive(Debug, Clone, Copy, PartialEq, Eq, Structural)]
pub enum PamResult {
    Success,
    AuthErr,
    UserUnknown,
    /// Let the next module decide.
    Ignore,
}

/// The face-authentication PAM module.
pub struct PamFacePass;

impl PamFacePass {
    /// The result of an authentication: an unknown user is refused as such;
    /// otherwise the daemon's answer (`Ok(success)`) decides, and a daemon that
    /// could not be asked or did not answer lets the next module decide.
    pub fn authenticate(user: Option<String>, answer: Option<Result<bool, IpcError>>) -> (r: PamResult)
        ensures
            r == match user {
                None => PamResult::UserUnknown,
                Some(_) => match answer {
                    Some(Ok(true)) => PamResult::Success,
                    Some(Ok(false)) => PamResult::AuthErr,
                    _ => PamResult::Ignore,
                },
            },
    {
        match user {
            None => PamResult::UserUnknown,
            Some(_) => match answer {
                Some(Ok(success)) => {
                    if success {
                        PamResult::Success
                    } else {
                        PamResult::AuthErr
                    }
                },
                _ => PamResult::Ignore,
            },
        }
    }

    /// Credentials need nothing from this module.
    pub fn set_credentials() -> (r: PamResult)
        ensures
            r == PamResult::Success,
    {
        PamResult::Success
    }

    /// Account management needs nothing from this module.
    pub fn account_management() -> (r: PamResult)
        ensures
            r == PamResult::Success,
    {
        PamResult::Success
    }
}

/// How long the module waits for the daemon's answer: two seconds more than
/// the authentication may take, or without limit when it may take forever.
pub fn read_timeout_secs(timeout: u32) -> (r: Option<u64>)
    requires
        timeout <= u32::MAX - 2,
    ensures
        r == (if timeout == 0 { None } else { Some((timeout + 2) as u64) }),
{
    if timeout == 0 {
        None
    } else {
        Some((timeout + 2) as u64)
    }
}

/// How long the module waits to send its request.
pub fn write_timeout_secs() -> (r: u64)
    ensures
        r == 5,
{
    5
}

/// The request the module sends for `username`.
pub fn pam_request(username: &str) -> (r: AuthRequest)
    ensures
        r.msg_type@ == "auth"@,
        r.username@ == username@,
        r.source@ == "pam"@,
        r.timeout == 5,
{
    AuthRequest::new(username, "pam", 5)
}

} // verus!
