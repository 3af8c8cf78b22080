//! The library's error type and its rendered messages.

use vstd::prelude::*;
use vstd::string::StringExecFns;

verus! {

/// Errors reported by the library.
#[derive(Debug, PartialEq, Eq)]
pub enum Error {
    Config(String),
    Camera(String),
    Detection(String),
    Recognition(String),
    AntiSpoofing(String),
    Storage(String),
    ModelNotInitialized(String),
    NoFaceDetected,
    Timeout,
    NoFaceData(String),
    SecurityCheck(String),
    Io(String),
    Serialization(String),
    OpenCV(String),
    Ipc(String),
}

/// The prefix that each kind of error carries in its message.
pub open spec fn error_text(e: Error) -> Seq<char> {
    match e {
        Error::Config(m) => "Configuration error: "@ + m@,
        Error::Camera(m) => "Camera error: "@ + m@,
        Error::Detection(m) => "Face detection error: "@ + m@,
        Error::Recognition(m) => "Face recognition error: "@ + m@,
        Error::AntiSpoofing(m) => "Anti-spoofing error: "@ + m@,
        Error::Storage(m) => "Storage error: "@ + m@,
        Error::ModelNotInitialized(m) => "Model not initialized: "@ + m@,
        Error::NoFaceDetected => "No face detected"@,
        Error::Timeout => "Authentication timeout"@,
        Error::NoFaceData(m) => "User has no face data: "@ + m@,
        Error::SecurityCheck(m) => "Security check failed: "@ + m@,
        Error::Io(m) => "IO error: "@ + m@,
        Error::Serialization(m) => "Serialization error: "@ + m@,
        Error::OpenCV(m) => "OpenCV error: "@ + m@,
        Error::Ipc(m) => "IPC error: "@ + m@,
    }
}

fn prefixed(prefix: &str, m: &String) -> (r: String)
    ensures
        r@ == prefix@ + m@,
{
    let mut r = String::from_str(prefix);
    r.append(m.as_str());
    r
}

impl Error {
    /// The human-readable message of this error.
    pub fn message(&self) -> (r: String)
        ensures
            r@ == error_text(*self),
    {
        match self {
            Error::Config(m) => prefixed("Configuration error: ", m),
            Error::Camera(m) => prefixed("Camera error: ", m),
            Error::Detection(m) => prefixed("Face detection error: ", m),
            Error::Recognition(m) => prefixed("Face recognition error: ", m),
            Error::AntiSpoofing(m) => prefixed("Anti-spoofing error: ", m),
            Error::Storage(m) => prefixed("Storage error: ", m),
            Error::ModelNotInitialized(m) => prefixed("Model not initialized: ", m),
            Error::NoFaceDetected => String::from_str("No face detected"),
            Error::Timeout => String::from_str("Authentication timeout"),
            Error::NoFaceData(m) => prefixed("User has no face data: ", m),
            Error::SecurityCheck(m) => prefixed("Security check failed: ", m),
            Error::Io(m) => prefixed("IO error: ", m),
            Error::Serialization(m) => prefixed("Serialization error: ", m),
            Error::OpenCV(m) => prefixed("OpenCV error: ", m),
            Error::Ipc(m) => prefixed("IPC error: ", m),
        }
    }
}

} // verus!
