//! Errors as they are reported to callers.
use crate::json::{text_value, JsonValue};
use crate::text::{cat2, cat3};
use vstd::prelude::*;

verus! {

/// An operation that was refused or did not succeed, with the message that says
/// why.
#[derive(Debug, PartialEq, Eq)]
pub struct Failure {
    pub message: String,
}

impl Failure {
    /// The text of the message.
    pub open spec fn view(&self) -> Seq<char> {
        self.message@
    }

    /// A failure with a message.
    pub fn new(message: String) -> (r: Failure)
        ensures
            r.message == message,
    {
        Failure { message }
    }
}

impl Clone for Failure {
    fn clone(&self) -> (r: Self)
        ensures
            r == *self,
    {
        Failure { message: self.message.clone() }
    }
}

/// Codes under which errors are reported.
#[derive(Debug, Clone, Copy, PartialEq, Eq, Structural)]
pub enum PtyErrorCode {
    SessionNotFound,
    SessionNotRunning,
    PermissionDenied,
    InvalidArgument,
    InvalidRegex,
    SpawnFailed,
    WriteFailed,
    ReadFailed,
    Timeout,
    NotImplemented,
    SshConnectionNotFound,
    SshConnectionNotReady,
    SshAuthFailed,
    SshHostUnreachable,
    SshHostKeyRejected,
    SshCapabilityUnavailable,
    SshMountNotFound,
    SshMountFailed,
    SshUnmountFailed,
    SshActiveSessionExists,
    SshActiveMountExists,
}

/// The written form of a code.
pub open spec fn code_text(code: PtyErrorCode) -> Seq<char> {
    match code {
        PtyErrorCode::SessionNotFound => "SESSION_NOT_FOUND"@,
        PtyErrorCode::SessionNotRunning => "SESSION_NOT_RUNNING"@,
        PtyErrorCode::PermissionDenied => "PERMISSION_DENIED"@,
        PtyErrorCode::InvalidArgument => "INVALID_ARGUMENT"@,
        PtyErrorCode::InvalidRegex => "INVALID_REGEX"@,
        PtyErrorCode::SpawnFailed => "SPAWN_FAILED"@,
        PtyErrorCode::WriteFailed => "WRITE_FAILED"@,
        PtyErrorCode::ReadFailed => "READ_FAILED"@,
        PtyErrorCode::Timeout => "TIMEOUT"@,
        PtyErrorCode::NotImplemented => "NOT_IMPLEMENTED"@,
        PtyErrorCode::SshConnectionNotFound => "SSH_CONNECTION_NOT_FOUND"@,
        PtyErrorCode::SshConnectionNotReady => "SSH_CONNECTION_NOT_READY"@,
        PtyErrorCode::SshAuthFailed => "SSH_AUTH_FAILED"@,
        PtyErrorCode::SshHostUnreachable => "SSH_HOST_UNREACHABLE"@,
        PtyErrorCode::SshHostKeyRejected => "SSH_HOST_KEY_REJECTED"@,
        PtyErrorCode::SshCapabilityUnavailable => "SSH_CAPABILITY_UNAVAILABLE"@,
        PtyErrorCode::SshMountNotFound => "SSH_MOUNT_NOT_FOUND"@,
        PtyErrorCode::SshMountFailed => "SSH_MOUNT_FAILED"@,
        PtyErrorCode::SshUnmountFailed => "SSH_UNMOUNT_FAILED"@,
        PtyErrorCode::SshActiveSessionExists => "SSH_ACTIVE_SESSION_EXISTS"@,
        PtyErrorCode::SshActiveMountExists => "SSH_ACTIVE_MOUNT_EXISTS"@,
    }
}

impl PtyErrorCode {
    /// The written form of the code.
    pub fn as_str(self) -> (r: &'static str)
        ensures
            r@ == code_text(self),
    {
        match self {
            PtyErrorCode::SessionNotFound => "SESSION_NOT_FOUND",
            PtyErrorCode::SessionNotRunning => "SESSION_NOT_RUNNING",
            PtyErrorCode::PermissionDenied => "PERMISSION_DENIED",
            PtyErrorCode::InvalidArgument => "INVALID_ARGUMENT",
            PtyErrorCode::InvalidRegex => "INVALID_REGEX",
            PtyErrorCode::SpawnFailed => "SPAWN_FAILED",
            PtyErrorCode::WriteFailed => "WRITE_FAILED",
            PtyErrorCode::ReadFailed => "READ_FAILED",
            PtyErrorCode::Timeout => "TIMEOUT",
            PtyErrorCode::NotImplemented => "NOT_IMPLEMENTED",
            PtyErrorCode::SshConnectionNotFound => "SSH_CONNECTION_NOT_FOUND",
            PtyErrorCode::SshConnectionNotReady => "SSH_CONNECTION_NOT_READY",
            PtyErrorCode::SshAuthFailed => "SSH_AUTH_FAILED",
            PtyErrorCode::SshHostUnreachable => "SSH_HOST_UNREACHABLE",
            PtyErrorCode::SshHostKeyRejected => "SSH_HOST_KEY_REJECTED",
            PtyErrorCode::SshCapabilityUnavailable => "SSH_CAPABILITY_UNAVAILABLE",
            PtyErrorCode::SshMountNotFound => "SSH_MOUNT_NOT_FOUND",
            PtyErrorCode::SshMountFailed => "SSH_MOUNT_FAILED",
            PtyErrorCode::SshUnmountFailed => "SSH_UNMOUNT_FAILED",
            PtyErrorCode::SshActiveSessionExists => "SSH_ACTIVE_SESSION_EXISTS",
            PtyErrorCode::SshActiveMountExists => "SSH_ACTIVE_MOUNT_EXISTS",
        }
    }
}

/// An error with its code and, where there are any, details.
#[derive(Debug, PartialEq, Eq)]
pub struct PtyError {
    pub error_code: PtyErrorCode,
    pub message: String,
    pub details: Option<JsonValue>,
}

impl PtyError {
    /// An error without details.
    pub fn new(error_code: PtyErrorCode, message: String) -> (r: PtyError)
        ensures
            r.error_code == error_code,
            r.message == message,
            r.details is None,
    {
        PtyError { error_code, message, details: None }
    }

    /// The same error with details.
    pub fn with_details(self, details: JsonValue) -> (r: PtyError)
        ensures
            r.error_code == self.error_code,
            r.message == self.message,
            r.details == Some(details),
    {
        PtyError { error_code: self.error_code, message: self.message, details: Some(details) }
    }

    /// The error of a tool that is not there yet.
    pub fn not_implemented(tool_name: &str) -> (r: PtyError)
        ensures
            r.error_code == PtyErrorCode::NotImplemented,
            r.message@ == tool_name@ + " is not implemented yet"@,
            r.details matches Some(JsonValue::Object(fields)) && {
                &&& fields@.len() == 2
                &&& fields@[0].0@ == "tool"@
                &&& fields@[0].1 matches JsonValue::Text(t) && t@ == tool_name@
                &&& fields@[1].0@ == "implemented_phases"@
                &&& fields@[1].1 matches JsonValue::Array(phases) && {
                    &&& phases@.len() == 2
                    &&& phases@[0] matches JsonValue::Text(p) && p@ == "S0"@
                    &&& phases@[1] matches JsonValue::Text(q) && q@ == "S1"@
                }
            },
    {
        let mut phases: Vec<JsonValue> = Vec::new();
        phases.push(text_value("S0"));
        phases.push(text_value("S1"));
        let mut fields: Vec<(String, JsonValue)> = Vec::new();
        fields.push(("tool".to_owned(), text_value(tool_name)));
        fields.push(("implemented_phases".to_owned(), JsonValue::Array(phases)));
        PtyError::new(
            PtyErrorCode::NotImplemented,
            cat2(tool_name, " is not implemented yet"),
        ).with_details(JsonValue::Object(fields))
    }

    /// The code and the message in one line.
    pub fn display(&self) -> (r: String)
        ensures
            r@ == code_text(self.error_code) + ": "@ + self.message@,
    {
        cat3(self.error_code.as_str(), ": ", self.message.as_str())
    }

    /// The body of the answer that reports the error: the code, the message and,
    /// where there are any, the details.
    pub fn body(self) -> (r: Vec<(String, JsonValue)>)
        ensures
            r@.len() == if self.details is Some {
                3nat
            } else {
                2nat
            },
            r@[0].0@ == "error_code"@,
            r@[0].1 matches JsonValue::Text(c) && c@ == code_text(self.error_code),
            r@[1].0@ == "message"@,
            r@[1].1 == JsonValue::Text(self.message),
            self.details matches Some(d) ==> r@[2].0@ == "details"@ && r@[2].1 == d,
    {
        let mut r: Vec<(String, JsonValue)> = Vec::new();
        r.push(("error_code".to_owned(), text_value(self.error_code.as_str())));
        r.push(("message".to_owned(), JsonValue::Text(self.message)));
        match self.details {
            Some(details) => {
                r.push(("details".to_owned(), details));
            },
            None => {},
        }
        r
    }
}

/// Each code is written in its own way.
pub proof fn law_codes_are_written_in_their_own_way(a: PtyErrorCode, b: PtyErrorCode)
    requires
        code_text(a) == code_text(b),
    ensures
        a == b,
{
    reveal_strlit("SESSION_NOT_FOUND");
    reveal_strlit("SESSION_NOT_RUNNING");
    reveal_strlit("PERMISSION_DENIED");
    reveal_strlit("INVALID_ARGUMENT");
    reveal_strlit("INVALID_REGEX");
    reveal_strlit("SPAWN_FAILED");
    reveal_strlit("WRITE_FAILED");
    reveal_strlit("READ_FAILED");
    reveal_strlit("TIMEOUT");
    reveal_strlit("NOT_IMPLEMENTED");
    reveal_strlit("SSH_CONNECTION_NOT_FOUND");
    reveal_strlit("SSH_CONNECTION_NOT_READY");
    reveal_strlit("SSH_AUTH_FAILED");
    reveal_strlit("SSH_HOST_UNREACHABLE");
    reveal_strlit("SSH_HOST_KEY_REJECTED");
    reveal_strlit("SSH_CAPABILITY_UNAVAILABLE");
    reveal_strlit("SSH_MOUNT_NOT_FOUND");
    reveal_strlit("SSH_MOUNT_FAILED");
    reveal_strlit("SSH_UNMOUNT_FAILED");
    reveal_strlit("SSH_ACTIVE_SESSION_EXISTS");
    reveal_strlit("SSH_ACTIVE_MOUNT_EXISTS");
    let x = code_text(a);
    let y = code_text(b);
    assert(x.len() == y.len());
    assert(x[0] == y[0] && x[4] == y[4] && x[5] == y[5] && x[6] == y[6]);
    if x.len() > 19 {
        assert(x[19] == y[19]);
    }
}

} // verus!
