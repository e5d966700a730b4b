//! The `output` management commands: their arguments, how a command line
//! selects one, and the text they print.
use vstd::prelude::*;

use crate::error::{error_exit_code, FoldbackError};
use crate::stash::{channel_named, texts, Channel};
use crate::text::{parse_u64_range, parsed_u64, str_eq};

pub mod get;
pub mod grep;
pub mod info;
pub mod purge;
pub mod tail;

use get::{get_request, GetArgs};
use grep::{grep_request, GrepArgs};
use tail::{tail_request, TailArgs};

verus! {

/// What `u64::from_str` gives for a flag's value.
pub open spec fn u64_text(s: Seq<char>) -> Option<u64> {
    parsed_u64(vstd::utf8::encode_utf8(s))
}

/// The error for a flag given without its value.
pub open spec fn missing_value(flag: Seq<char>) -> Seq<char> {
    flag + ": missing value"@
}

/// The error for a numeric flag whose value is not a `u64`.
pub open spec fn not_a_count(flag: Seq<char>) -> Seq<char> {
    flag + ": expected non-negative integer"@
}

/// The number after a numeric flag, or bad input when it is missing or not
/// a non-negative integer.
pub fn parse_u64_flag(val: Option<&String>, flag: &str) -> (r: Result<u64, FoldbackError>)
    ensures
        match val {
            None => r matches Err(FoldbackError::BadInput(m)) && m@ == missing_value(flag@),
            Some(v) => match u64_text(v@) {
                Some(n) => r == Ok::<u64, FoldbackError>(n),
                None => r matches Err(FoldbackError::BadInput(m)) && m@ == not_a_count(flag@),
            },
        },
{
    match val {
        None => {
            let mut m = String::from_str(flag);
            m.append(": missing value");
            Err(FoldbackError::BadInput(m))
        },
        Some(v) => {
            let b = v.as_str().as_bytes();
            match parse_u64_range(b, 0, b.len()) {
                Some(n) => {
                    assert(b@.subrange(0, b@.len() as int) =~= b@);
                    Ok(n)
                },
                None => {
                    assert(b@.subrange(0, b@.len() as int) =~= b@);
                    let mut m = String::from_str(flag);
                    m.append(": expected non-negative integer");
                    Err(FoldbackError::BadInput(m))
                },
            }
        },
    }
}

/// The channel after `--channel`, or bad input when it is missing or unknown.
pub fn parse_channel_flag(val: Option<&String>) -> (r: Result<Channel, FoldbackError>)
    ensures
        match val {
            None => r matches Err(FoldbackError::BadInput(m)) && m@ == missing_value("--channel"@),
            Some(v) => match channel_named(v@) {
                Some(c) => r == Ok::<Channel, FoldbackError>(c),
                None => r matches Err(FoldbackError::BadInput(m)) && m@ == "unknown channel: "@
                    + v@,
            },
        },
{
    match val {
        None => {
            let mut m = String::from_str("--channel");
            m.append(": missing value");
            Err(FoldbackError::BadInput(m))
        },
        Some(v) => Channel::parse(v.as_str()),
    }
}

/// A management command, with its arguments.
pub enum OutputCommand {
    Get(GetArgs),
    Tail(TailArgs),
    Grep(GrepArgs),
    Info(String),
    PurgeExpired,
}

/// What the arguments after `output` ask for.
pub enum OutputRequest {
    /// No subcommand was given; the text lists them.
    MissingSubcommand(String),
    /// The subcommand is unknown or misused; the text says how.
    Usage(String),
    /// The subcommand's own arguments are wrong.
    Invalid(FoldbackError),
    /// A command to run.
    Run(OutputCommand),
}

/// The message for a missing subcommand.
pub open spec fn missing_subcommand_text() -> Seq<char> {
    "foldback output: missing subcommand\nSubcommands: get, tail, grep, info, purge"@
}

/// The message for an unknown subcommand.
pub open spec fn unknown_subcommand_text(name: Seq<char>) -> Seq<char> {
    "foldback output: unknown subcommand '"@ + name + "'"@
}

/// The message for `purge` without `--expired`.
pub open spec fn purge_usage_text() -> Seq<char> {
    "foldback output purge: use --expired flag"@
}

/// The ref that `info` shows, or the message when there is none.
pub open spec fn info_request(a: Seq<Seq<char>>) -> Result<Seq<char>, Seq<char>> {
    if a.len() == 0 {
        Err("info: missing <ref>"@)
    } else {
        Ok(a[0])
    }
}

/// `r` is the request that the arguments `a` (those after `output`) make.
pub open spec fn output_request_of(r: OutputRequest, a: Seq<Seq<char>>) -> bool {
    if a.len() == 0 {
        r matches OutputRequest::MissingSubcommand(m) && m@ == missing_subcommand_text()
    } else {
        let rest = a.skip(1);
        if a[0] == "get"@ {
            match get_request(rest) {
                Ok(q) => r matches OutputRequest::Run(OutputCommand::Get(g)) && g.is_request(q),
                Err(m) => r matches OutputRequest::Invalid(FoldbackError::BadInput(x)) && x@ == m,
            }
        } else if a[0] == "tail"@ {
            match tail_request(rest) {
                Ok(q) => r matches OutputRequest::Run(OutputCommand::Tail(t)) && t.is_request(q),
                Err(m) => r matches OutputRequest::Invalid(FoldbackError::BadInput(x)) && x@ == m,
            }
        } else if a[0] == "grep"@ {
            match grep_request(rest) {
                Ok(q) => r matches OutputRequest::Run(OutputCommand::Grep(g)) && g.is_request(q),
                Err(m) => r matches OutputRequest::Invalid(FoldbackError::BadInput(x)) && x@ == m,
            }
        } else if a[0] == "info"@ {
            match info_request(rest) {
                Ok(q) => r matches OutputRequest::Run(OutputCommand::Info(x)) && x@ == q,
                Err(m) => r matches OutputRequest::Invalid(FoldbackError::BadInput(x)) && x@ == m,
            }
        } else if a[0] == "purge"@ {
            if a.len() > 1 && a[1] == "--expired"@ {
                r matches OutputRequest::Run(OutputCommand::PurgeExpired)
            } else {
                r matches OutputRequest::Usage(m) && m@ == purge_usage_text()
            }
        } else {
            r matches OutputRequest::Usage(m) && m@ == unknown_subcommand_text(a[0])
        }
    }
}

/// Read the arguments after `output`: which command they name and with what.
pub fn parse_output(args: &[String]) -> (r: OutputRequest)
    ensures
        output_request_of(r, texts(args@)),
{
    if args.len() == 0 {
        return OutputRequest::MissingSubcommand(
            String::from_str("foldback output: missing subcommand\nSubcommands: get, tail, grep, info, purge"),
        );
    }
    let rest = &args[1..args.len()];
    let ghost a = texts(args@);
    assert(texts(rest@) =~= a.skip(1));
    let name = args[0].as_str();
    if str_eq(name, "get") {
        match GetArgs::parse(rest) {
            Ok(g) => OutputRequest::Run(OutputCommand::Get(g)),
            Err(e) => OutputRequest::Invalid(e),
        }
    } else if str_eq(name, "tail") {
        match TailArgs::parse(rest) {
            Ok(t) => OutputRequest::Run(OutputCommand::Tail(t)),
            Err(e) => OutputRequest::Invalid(e),
        }
    } else if str_eq(name, "grep") {
        match GrepArgs::parse(rest) {
            Ok(g) => OutputRequest::Run(OutputCommand::Grep(g)),
            Err(e) => OutputRequest::Invalid(e),
        }
    } else if str_eq(name, "info") {
        if rest.len() == 0 {
            OutputRequest::Invalid(FoldbackError::BadInput(String::from_str("info: missing <ref>")))
        } else {
            OutputRequest::Run(OutputCommand::Info(rest[0].clone()))
        }
    } else if str_eq(name, "purge") {
        if args.len() > 1 && str_eq(args[1].as_str(), "--expired") {
            OutputRequest::Run(OutputCommand::PurgeExpired)
        } else {
            OutputRequest::Usage(String::from_str("foldback output purge: use --expired flag"))
        }
    } else {
        let mut m = String::from_str("foldback output: unknown subcommand '");
        m.append(name);
        m.append("'");
        OutputRequest::Usage(m)
    }
}

/// Exit code of a misused command line: no or unknown subcommand, `purge`
/// without `--expired`, `run` without a command.
pub const USAGE_EXIT_CODE: i32 = 2;

/// Exit code when the stash cannot be opened for a management command.
pub const STASH_UNAVAILABLE_EXIT_CODE: i32 = 3;

/// The exit code of a management command that ran: 0 on success, else the
/// error's own code.
pub fn outcome_exit_code(r: &Result<(), FoldbackError>) -> (c: i32)
    ensures
        c == match r {
            Ok(_) => 0,
            Err(e) => error_exit_code(*e),
        },
{
    match r {
        Ok(()) => 0,
        Err(e) => e.exit_code(),
    }
}

} // verus!
