//! `output tail <ref> [--channel stdout|stderr] [--lines N]`.
use vstd::prelude::*;

use crate::error::FoldbackError;
use crate::stash::{channel_named, texts, Channel};
use crate::text::str_eq;

use super::{missing_value, not_a_count, parse_channel_flag, parse_u64_flag, u64_text};

verus! {

/// Arguments of `output tail`.
pub struct TailArgs {
    pub ref_id: String,
    pub channel: Channel,
    pub lines: usize,
}

/// Lines shown when `--lines` is not given.
pub const DEFAULT_TAIL_LINES: usize = 10;

/// The flags of `tail` from `a[i]` on, applied to the settings so far.
pub open spec fn tail_flags(a: Seq<Seq<char>>, i: int, channel: Channel, lines: usize) -> Result<
    (Channel, usize),
    Seq<char>,
>
    decreases a.len() - i,
{
    if i < 0 || i >= a.len() {
        Ok((channel, lines))
    } else if a[i] == "--channel"@ {
        if i + 1 >= a.len() {
            Err(missing_value("--channel"@))
        } else {
            match channel_named(a[i + 1]) {
                Some(c) => tail_flags(a, i + 2, c, lines),
                None => Err("unknown channel: "@ + a[i + 1]),
            }
        }
    } else if a[i] == "--lines"@ {
        if i + 1 >= a.len() {
            Err(missing_value("--lines"@))
        } else {
            match u64_text(a[i + 1]) {
                Some(n) => tail_flags(a, i + 2, channel, n as usize),
                None => Err(not_a_count("--lines"@)),
            }
        }
    } else {
        Err("tail: unknown flag '"@ + a[i] + "'"@)
    }
}

/// The message when `tail` is asked for both channels.
pub open spec fn tail_both_text() -> Seq<char> {
    "tail --channel: 'both' is not valid; use 'stdout' or 'stderr'"@
}

/// The ref, channel and line count that `tail`'s arguments ask for (stdout
/// and ten lines by default), or the message for arguments it refuses.
pub open spec fn tail_request(a: Seq<Seq<char>>) -> Result<(Seq<char>, Channel, usize), Seq<char>> {
    if a.len() == 0 {
        Err("tail: missing <ref>"@)
    } else {
        match tail_flags(a, 1, Channel::Stdout, DEFAULT_TAIL_LINES) {
            Ok((c, n)) => if c == Channel::Both {
                Err(tail_both_text())
            } else {
                Ok((a[0], c, n))
            },
            Err(m) => Err(m),
        }
    }
}

impl TailArgs {
    /// These are the arguments of request `q`.
    pub open spec fn is_request(self, q: (Seq<char>, Channel, usize)) -> bool {
        self.ref_id@ == q.0 && self.channel == q.1 && self.lines == q.2
    }

    /// Read `tail`'s arguments: the ref, then flags; `both` is refused.
    pub fn parse(args: &[String]) -> (r: Result<TailArgs, FoldbackError>)
        ensures
            match tail_request(texts(args@)) {
                Ok(q) => r matches Ok(t) && t.is_request(q),
                Err(m) => r matches Err(FoldbackError::BadInput(x)) && x@ == m,
            },
    {
        let ghost a = texts(args@);
        if args.len() == 0 {
            return Err(FoldbackError::BadInput(String::from_str("tail: missing <ref>")));
        }
        let mut channel = Channel::Stdout;
        let mut lines: usize = DEFAULT_TAIL_LINES;
        let mut i: usize = 1;
        while i < args.len()
            invariant
                a == texts(args@),
                1 <= i <= args.len(),
                tail_flags(a, 1, Channel::Stdout, DEFAULT_TAIL_LINES) == tail_flags(
                    a,
                    i as int,
                    channel,
                    lines,
                ),
            decreases args.len() - i,
        {
            let flag = args[i].as_str();
            let next = if i + 1 < args.len() {
                Some(&args[i + 1])
            } else {
                None
            };
            if str_eq(flag, "--channel") {
                channel = parse_channel_flag(next)?;
            } else if str_eq(flag, "--lines") {
                let n = parse_u64_flag(next, "--lines")?;
                lines = n as usize;
            } else {
                let mut m = String::from_str("tail: unknown flag '");
                m.append(flag);
                m.append("'");
                return Err(FoldbackError::BadInput(m));
            }
            i = i + 2;
        }
        if channel == Channel::Both {
            return Err(
                FoldbackError::BadInput(
                    String::from_str(
                        "tail --channel: 'both' is not valid; use 'stdout' or 'stderr'",
                    ),
                ),
            );
        }
        Ok(TailArgs { ref_id: args[0].clone(), channel, lines })
    }
}

} // verus!
