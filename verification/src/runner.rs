//! What a run of the child command yields, and its exit code.
use vstd::prelude::*;

verus! {

/// The captured result of running a child command.
pub struct CaptureResult {
    pub stdout: Vec<u8>,
    pub stderr: Vec<u8>,
    pub exit_code: i32,
    pub cwd: String,
    pub command: String,
    pub args: Vec<String>,
    pub started_at_ms: i64,
    pub duration_ms: u64,
}

/// The exit code of a finished child: its own code when it exited; `128 +`
/// the signal when a signal ended it; `128` when neither is known.
pub open spec fn exit_code_of(code: Option<i32>, signal: Option<i32>) -> int {
    match code {
        Some(c) => c as int,
        None => match signal {
            Some(s) => 128 + s,
            None => 128,
        },
    }
}

/// The exit code of a child from its exit status, as the code and the
/// signal that the status reports.
pub fn exit_code_from_parts(code: Option<i32>, signal: Option<i32>) -> (r: i32)
    requires
        code is None ==> (signal matches Some(s) ==> s <= i32::MAX - 128),
    ensures
        r == exit_code_of(code, signal),
{
    match code {
        Some(c) => c,
        None => match signal {
            Some(s) => 128 + s,
            None => 128,
        },
    }
}

/// Exit code of a passthrough run whose command could not be started.
pub const SPAWN_FAILURE_EXIT_CODE: i32 = 127;

/// The exit code of a passthrough run: the child's own exit code whenever
/// the child ran, whether or not its output could be stashed (the stash
/// fails open); `127` when the command could not be started.
pub fn passthrough_exit_code(child_exit: Option<i32>, stashed: bool) -> (r: i32)
    ensures
        r == match child_exit {
            Some(c) => c,
            None => SPAWN_FAILURE_EXIT_CODE,
        },
{
    match child_exit {
        Some(c) => c,
        None => SPAWN_FAILURE_EXIT_CODE,
    }
}

} // verus!
