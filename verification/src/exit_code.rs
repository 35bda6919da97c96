//! Process exit codes of the command line client.

use vstd::prelude::*;

verus! {

/// Unique exit code values.
#[derive(Copy, Clone, Debug, PartialEq, Eq, Structural)]
pub enum ExitCode {
    Success,
    Generic,
    NotAuthenticated,
    AuthenticationFailure,
    PackageNotFound,
    AlreadyExists,
    NoHistoryFound,
    JsError,
    ConfirmationFailed,
    NotFound,
    InvalidTokenExpiration,
    ManifestWithoutGeneration,
    UnknownManifestFormat,
    FailedPolicy,
    SandboxStart,
    SandboxStartCollision,
    Custom(i32),
}

/// The process status each exit code stands for.
pub open spec fn exit_code_value(code: ExitCode) -> i32 {
    match code {
        ExitCode::Success => 0,
        ExitCode::Generic => 1,
        ExitCode::NotAuthenticated => 10,
        ExitCode::AuthenticationFailure => 11,
        ExitCode::PackageNotFound => 12,
        ExitCode::AlreadyExists => 14,
        ExitCode::NoHistoryFound => 15,
        ExitCode::JsError => 16,
        ExitCode::ConfirmationFailed => 17,
        ExitCode::NotFound => 18,
        ExitCode::InvalidTokenExpiration => 19,
        ExitCode::ManifestWithoutGeneration => 20,
        ExitCode::UnknownManifestFormat => 21,
        ExitCode::FailedPolicy => 100,
        ExitCode::SandboxStart => 117,
        ExitCode::SandboxStartCollision => 118,
        ExitCode::Custom(c) => c,
    }
}

impl ExitCode {
    /// The process status for this exit code.
    pub fn code(&self) -> (r: i32)
        ensures
            r == exit_code_value(*self),
    {
        match self {
            ExitCode::Success => 0,
            ExitCode::Generic => 1,
            ExitCode::NotAuthenticated => 10,
            ExitCode::AuthenticationFailure => 11,
            ExitCode::PackageNotFound => 12,
            ExitCode::AlreadyExists => 14,
            ExitCode::NoHistoryFound => 15,
            ExitCode::JsError => 16,
            ExitCode::ConfirmationFailed => 17,
            ExitCode::NotFound => 18,
            ExitCode::InvalidTokenExpiration => 19,
            ExitCode::ManifestWithoutGeneration => 20,
            ExitCode::UnknownManifestFormat => 21,
            ExitCode::FailedPolicy => 100,
            ExitCode::SandboxStart => 117,
            ExitCode::SandboxStartCollision => 118,
            ExitCode::Custom(code) => *code,
        }
    }
}

impl<'a> From<&'a ExitCode> for i32 {
    fn from(code: &'a ExitCode) -> (r: i32) {
        code.code()
    }
}

impl<'a> vstd::std_specs::convert::FromSpecImpl<&'a ExitCode> for i32 {
    open spec fn obeys_from_spec() -> bool {
        true
    }

    open spec fn from_spec(code: &'a ExitCode) -> i32 {
        exit_code_value(*code)
    }
}

/// The exit code reported for a finished child process: its own status where
/// it has one, otherwise `Generic` on failure and `Success` on success.
pub fn exit_code_from_status(code: Option<i32>, success: bool) -> (r: ExitCode)
    ensures
        r == match code {
            Some(c) => ExitCode::Custom(c),
            None => if success {
                ExitCode::Success
            } else {
                ExitCode::Generic
            },
        },
{
    match code {
        Some(code) => ExitCode::Custom(code),
        None if !success => ExitCode::Generic,
        None => ExitCode::Success,
    }
}

/// The exit code `phylum sandbox` passes on from the sandboxed process: its
/// own, except that the code that reports a failed start is turned into the
/// collision code, so that a failed start is told apart reliably.
pub fn sandbox_exit_code(code: i32) -> (r: ExitCode)
    ensures
        r == ExitCode::Custom(
            if code == exit_code_value(ExitCode::SandboxStart) {
                exit_code_value(ExitCode::SandboxStartCollision)
            } else {
                code
            },
        ),
{
    if code == ExitCode::SandboxStart.code() {
        ExitCode::Custom(ExitCode::SandboxStartCollision.code())
    } else {
        ExitCode::Custom(code)
    }
}

} // verus!
