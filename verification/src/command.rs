//! Plain records exchanged with the subprocess primitive.
//!
//! Spawning and awaiting a process is the executable shell's job; the
//! library only reads the finished output these types carry.

use vstd::prelude::*;

verus! {

/// What a finished subprocess left behind.
#[derive(Debug, Clone, PartialEq, Eq)]
pub struct CommandOutput {
    pub exit_code: i32,
    pub stdout: String,
    pub stderr: String,
}

/// Credentials a command should be run under.
#[derive(Debug, Clone, PartialEq, Eq)]
pub struct CommandRunAs {
    pub uid: u32,
    pub gid: u32,
}

/// How a command should be spawned.
#[derive(Debug, Clone, PartialEq, Eq)]
pub struct CommandRunOptions {
    pub run_as: Option<CommandRunAs>,
    pub env: Vec<(String, String)>,
}

impl Default for CommandRunOptions {
    /// No credential change and no extra environment.
    fn default() -> (r: Self)
        ensures
            r.run_as is None,
            r.env@.len() == 0,
    {
        CommandRunOptions { run_as: None, env: Vec::new() }
    }
}

/// The user that invoked the tool, resolved by the shell from the
/// environment when running under elevated privileges.
#[derive(Debug, Clone, PartialEq, Eq)]
pub struct InvokingUser {
    pub uid: u32,
    pub gid: u32,
    pub username: Option<String>,
    pub home_dir: String,
}

} // verus!
