//! Per-invocation and per-channel context of the display pipeline.
use vstd::prelude::*;

use vstd::string::StringSliceAdditionalSpecFns;

use crate::argv::{normalize, normalized, NormalizedCommand};
use crate::stash::Channel;
use crate::time::UtcTime;

verus! {

/// Per-invocation context built after the capture was stashed.
pub struct CommandContext {
    /// `argv[0]` as passed, unmodified.
    pub command: String,
    /// `argv[1..]` as passed.
    pub args: Vec<String>,
    /// Normalized form of `command` + `args`, used for reducer dispatch.
    pub normalized: NormalizedCommand,
    /// Exit code of the child process.
    pub exit_code: i32,
    /// Working directory at capture time.
    pub cwd: String,
}

/// Per-channel context threaded through `render_channel` and `Reducer::reduce`.
pub struct ChannelContext<'a> {
    /// Shared invocation context.
    pub command: &'a CommandContext,
    /// Which I/O channel this context is for.
    pub channel: Channel,
    /// Stash ref identifier (32 lowercase hex chars).
    pub ref_id: &'a str,
    /// When this ref expires; embedded in the marker.
    pub expires_at: &'a UtcTime,
}

impl CommandContext {
    /// The context of a finished run of `command` with `args`.
    pub fn new(command: &str, args: &[String], exit_code: i32, cwd: &str) -> (r: CommandContext)
        ensures
            r.command@ == command@,
            r.args@ == args@,
            r.normalized == normalized(command.spec_bytes(), args@),
            r.exit_code == exit_code,
            r.cwd@ == cwd@,
    {
        let mut copied: Vec<String> = Vec::new();
        let mut k: usize = 0;
        while k < args.len()
            invariant
                k <= args.len(),
                copied@ == args@.take(k as int),
            decreases args.len() - k,
        {
            copied.push(args[k].clone());
            assert(copied@ =~= args@.take(k + 1));
            k = k + 1;
        }
        assert(args@.take(args.len() as int) =~= args@);
        CommandContext {
            command: command.to_owned(),
            args: copied,
            normalized: normalize(command, args),
            exit_code,
            cwd: cwd.to_owned(),
        }
    }
}

} // verus!
