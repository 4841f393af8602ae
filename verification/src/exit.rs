//! Process exit codes and the error wrapper that carries one.

use vstd::prelude::*;

verus! {

#[derive(Debug, Clone, Copy, PartialEq, Eq, Structural)]
pub enum ExitCode {
    Success,
    InvalidArgs,
    ScanFailed,
    ExternalCommandFailed,
}

impl ExitCode {
    /// The numeric code handed to the operating system.
    pub open spec fn code(self) -> int {
        match self {
            ExitCode::Success => 0,
            ExitCode::InvalidArgs => 2,
            ExitCode::ScanFailed => 10,
            ExitCode::ExternalCommandFailed => 20,
        }
    }

    pub fn as_i32(self) -> (r: i32)
        ensures
            r as int == self.code(),
    {
        match self {
            ExitCode::Success => 0,
            ExitCode::InvalidArgs => 2,
            ExitCode::ScanFailed => 10,
            ExitCode::ExternalCommandFailed => 20,
        }
    }
}

/// An error that knows which exit code it deserves.
#[derive(Debug, Clone, PartialEq, Eq)]
pub struct ExitError {
    pub code: ExitCode,
    pub message: String,
}

impl ExitError {
    pub fn new(code: ExitCode, message: String) -> (r: Self)
        ensures
            r.code == code,
            r.message@ == message@,
    {
        ExitError { code, message }
    }
}

/// The exit code an error maps to.
pub fn exit_code(err: &ExitError) -> (r: i32)
    ensures
        r as int == err.code.code(),
{
    err.code.as_i32()
}

pub fn invalid_args(message: String) -> (r: ExitError)
    ensures
        r.code == ExitCode::InvalidArgs,
        r.message@ == message@,
{
    ExitError { code: ExitCode::InvalidArgs, message }
}

/// Re-labels an error as an argument error, keeping its text.
pub fn invalid_args_err(err: ExitError) -> (r: ExitError)
    ensures
        r.code == ExitCode::InvalidArgs,
        r.message@ == err.message@,
{
    ExitError { code: ExitCode::InvalidArgs, message: err.message }
}

pub fn external_cmd(message: String) -> (r: ExitError)
    ensures
        r.code == ExitCode::ExternalCommandFailed,
        r.message@ == message@,
{
    ExitError { code: ExitCode::ExternalCommandFailed, message }
}

/// Re-labels an error as an external-command failure, keeping its text.
pub fn external_cmd_err(err: ExitError) -> (r: ExitError)
    ensures
        r.code == ExitCode::ExternalCommandFailed,
        r.message@ == err.message@,
{
    ExitError { code: ExitCode::ExternalCommandFailed, message: err.message }
}

} // verus!
