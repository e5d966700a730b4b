//! `output grep <ref> <pattern> [--channel stdout|stderr|both]`.
use vstd::prelude::*;

use crate::error::FoldbackError;
use crate::stash::{channel_named, texts, Channel};
use crate::text::str_eq;

use super::{missing_value, parse_channel_flag};

verus! {

/// Arguments of `output grep`.
pub struct GrepArgs {
    pub ref_id: String,
    pub pattern: String,
    pub channel: Channel,
}

/// The flags of `grep` from `a[i]` on, applied to the channel so far.
pub open spec fn grep_flags(a: Seq<Seq<char>>, i: int, channel: Channel) -> Result<Channel, Seq<char>>
    decreases a.len() - i,
{
    if i < 0 || i >= a.len() {
        Ok(channel)
    } else if a[i] == "--channel"@ {
        if i + 1 >= a.len() {
            Err(missing_value("--channel"@))
        } else {
            match channel_named(a[i + 1]) {
                Some(c) => grep_flags(a, i + 2, c),
                None => Err("unknown channel: "@ + a[i + 1]),
            }
        }
    } else {
        Err("grep: unknown flag '"@ + a[i] + "'"@)
    }
}

/// The ref, pattern and channel that `grep`'s arguments ask for (both
/// channels by default), or the message for arguments it refuses.
pub open spec fn grep_request(a: Seq<Seq<char>>) -> Result<(Seq<char>, Seq<char>, Channel), Seq<char>> {
    if a.len() < 2 {
        Err("grep: missing <ref> <pattern>"@)
    } else {
        match grep_flags(a, 2, Channel::Both) {
            Ok(c) => Ok((a[0], a[1], c)),
            Err(m) => Err(m),
        }
    }
}

impl GrepArgs {
    /// These are the arguments of request `q`.
    pub open spec fn is_request(self, q: (Seq<char>, Seq<char>, Channel)) -> bool {
        self.ref_id@ == q.0 && self.pattern@ == q.1 && self.channel == q.2
    }

    /// Read `grep`'s arguments: the ref, the pattern, then flags.
    pub fn parse(args: &[String]) -> (r: Result<GrepArgs, FoldbackError>)
        ensures
            match grep_request(texts(args@)) {
                Ok(q) => r matches Ok(g) && g.is_request(q),
                Err(m) => r matches Err(FoldbackError::BadInput(x)) && x@ == m,
            },
    {
        let ghost a = texts(args@);
        if args.len() < 2 {
            return Err(FoldbackError::BadInput(String::from_str("grep: missing <ref> <pattern>")));
        }
        let mut channel = Channel::Both;
        let mut i: usize = 2;
        while i < args.len()
            invariant
                a == texts(args@),
                2 <= i <= args.len(),
                grep_flags(a, 2, Channel::Both) == grep_flags(a, i as int, channel),
            decreases args.len() - i,
        {
            let flag = args[i].as_str();
            let next = if i + 1 < args.len() {
                Some(&args[i + 1])
            } else {
                None
            };
            if str_eq(flag, "--channel") {
                channel = parse_channel_flag(next)?;
            } else {
                let mut m = String::from_str("grep: unknown flag '");
                m.append(flag);
                m.append("'");
                return Err(FoldbackError::BadInput(m));
            }
            i = i + 2;
        }
        Ok(GrepArgs { ref_id: args[0].clone(), pattern: args[1].clone(), channel })
    }
}

} // verus!
