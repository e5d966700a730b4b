//! `output get <ref> [--channel stdout|stderr|both] [--offset N] [--limit N]`.
use vstd::prelude::*;

use crate::error::FoldbackError;
use crate::stash::{channel_named, texts, Channel};
use crate::text::str_eq;

use super::{missing_value, not_a_count, parse_channel_flag, parse_u64_flag, u64_text};

verus! {

/// Arguments of `output get`.
pub struct GetArgs {
    pub ref_id: String,
    pub channel: Channel,
    pub offset: Option<u64>,
    pub limit: Option<u64>,
}

/// The flags of `get` from `a[i]` on, applied to the settings so far.
pub open spec fn get_flags(
    a: Seq<Seq<char>>,
    i: int,
    channel: Channel,
    offset: Option<u64>,
    limit: Option<u64>,
) -> Result<(Channel, Option<u64>, Option<u64>), Seq<char>>
    decreases a.len() - i,
{
    if i < 0 || i >= a.len() {
        Ok((channel, offset, limit))
    } else if a[i] == "--channel"@ {
        if i + 1 >= a.len() {
            Err(missing_value("--channel"@))
        } else {
            match channel_named(a[i + 1]) {
                Some(c) => get_flags(a, i + 2, c, offset, limit),
                None => Err("unknown channel: "@ + a[i + 1]),
            }
        }
    } else if a[i] == "--offset"@ {
        if i + 1 >= a.len() {
            Err(missing_value("--offset"@))
        } else {
            match u64_text(a[i + 1]) {
                Some(n) => get_flags(a, i + 2, channel, Some(n), limit),
                None => Err(not_a_count("--offset"@)),
            }
        }
    } else if a[i] == "--limit"@ {
        if i + 1 >= a.len() {
            Err(missing_value("--limit"@))
        } else {
            match u64_text(a[i + 1]) {
                Some(n) => get_flags(a, i + 2, channel, offset, Some(n)),
                None => Err(not_a_count("--limit"@)),
            }
        }
    } else {
        Err("get: unknown flag '"@ + a[i] + "'"@)
    }
}

/// The ref, channel, offset and limit that `get`'s arguments ask for
/// (stdout, from the start, to the end by default), or the message for
/// arguments it refuses.
pub open spec fn get_request(a: Seq<Seq<char>>) -> Result<
    (Seq<char>, Channel, Option<u64>, Option<u64>),
    Seq<char>,
> {
    if a.len() == 0 {
        Err("get: missing <ref>"@)
    } else {
        match get_flags(a, 1, Channel::Stdout, None, None) {
            Ok((c, o, l)) => Ok((a[0], c, o, l)),
            Err(m) => Err(m),
        }
    }
}

impl GetArgs {
    /// These are the arguments of request `q`.
    pub open spec fn is_request(self, q: (Seq<char>, Channel, Option<u64>, Option<u64>)) -> bool {
        self.ref_id@ == q.0 && self.channel == q.1 && self.offset == q.2 && self.limit == q.3
    }

    /// Read `get`'s arguments: the ref, then flags.
    pub fn parse(args: &[String]) -> (r: Result<GetArgs, FoldbackError>)
        ensures
            match get_request(texts(args@)) {
                Ok(q) => r matches Ok(g) && g.is_request(q),
                Err(m) => r matches Err(FoldbackError::BadInput(x)) && x@ == m,
            },
    {
        let ghost a = texts(args@);
        if args.len() == 0 {
            return Err(FoldbackError::BadInput(String::from_str("get: missing <ref>")));
        }
        let mut channel = Channel::Stdout;
        let mut offset: Option<u64> = None;
        let mut limit: Option<u64> = None;
        let mut i: usize = 1;
        while i < args.len()
            invariant
                a == texts(args@),
                1 <= i <= args.len(),
                get_flags(a, 1, Channel::Stdout, None, None) == get_flags(
                    a,
                    i as int,
                    channel,
                    offset,
                    limit,
                ),
            decreases args.len() - i,
        {
            let flag = args[i].as_str();
            let next = if i + 1 < args.len() {
                Some(&args[i + 1])
            } else {
                None
            };
            if str_eq(flag, "--channel") {
                channel = parse_channel_flag(next)?;
            } else if str_eq(flag, "--offset") {
                offset = Some(parse_u64_flag(next, "--offset")?);
            } else if str_eq(flag, "--limit") {
                limit = Some(parse_u64_flag(next, "--limit")?);
            } else {
                let mut m = String::from_str("get: unknown flag '");
                m.append(flag);
                m.append("'");
                return Err(FoldbackError::BadInput(m));
            }
            i = i + 2;
        }
        Ok(GetArgs { ref_id: args[0].clone(), channel, offset, limit })
    }
}

} // verus!
