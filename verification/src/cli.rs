//! The top of the command line: which mode an invocation selects, where the
//! stash lives, and whether specialised reducers run.
use vstd::prelude::*;

use crate::stash::texts;
use crate::text::str_eq;

verus! {

/// What the whole command line asks for.
#[derive(Debug, Clone, Copy, PartialEq, Eq, Structural)]
pub enum Invocation {
    /// Too few arguments: print the usage.
    Usage,
    /// `output <subcommand> ...`: a management command, from argument 2 on.
    Output,
    /// Run the command at argument `command`, with the arguments after it.
    Run { command: usize },
    /// `run` without a `--` that has a command after it.
    MissingSeparator,
}

/// The first index holding `x`.
pub open spec fn first_index_of(a: Seq<Seq<char>>, x: Seq<char>, i: int) -> Option<int>
    decreases a.len() - i,
{
    if i < 0 || i >= a.len() {
        None
    } else if a[i] == x {
        Some(i)
    } else {
        first_index_of(a, x, i + 1)
    }
}

/// The mode selected by the whole argument list (the program name first):
/// `output` for management, `run -- <cmd>` as the explicit form, anything
/// else runs the command in place.
pub open spec fn invocation(a: Seq<Seq<char>>) -> Invocation {
    if a.len() < 2 {
        Invocation::Usage
    } else if a[1] == "output"@ {
        Invocation::Output
    } else if a[1] == "run"@ {
        match first_index_of(a, "--"@, 0) {
            Some(d) => if d + 1 < a.len() {
                Invocation::Run { command: (d + 1) as usize }
            } else {
                Invocation::MissingSeparator
            },
            None => Invocation::MissingSeparator,
        }
    } else {
        Invocation::Run { command: 1 }
    }
}

/// The message for `run` without a command after `--`.
pub open spec fn missing_separator_text() -> Seq<char> {
    "foldback run: missing -- separator\nUsage: foldback run -- <command> [args...]"@
}

/// The message for `run` without a command after `--`.
pub fn missing_separator_message() -> (r: String)
    ensures
        r@ == missing_separator_text(),
{
    String::from_str("foldback run: missing -- separator\nUsage: foldback run -- <command> [args...]")
}

/// Select the mode of a command line (the program name first).
pub fn parse_invocation(args: &[String]) -> (r: Invocation)
    ensures
        r == invocation(texts(args@)),
        r matches Invocation::Run { command } ==> 1 <= command < args@.len(),
{
    let ghost a = texts(args@);
    if args.len() < 2 {
        return Invocation::Usage;
    }
    assert(a[1] == args@[1]@);
    if str_eq(args[1].as_str(), "output") {
        return Invocation::Output;
    }
    if str_eq(args[1].as_str(), "run") {
        let mut k: usize = 0;
        while k < args.len()
            invariant
                a == texts(args@),
                k <= args.len(),
                args.len() >= 2,
                a[1] == "run"@,
                a[1] != "output"@,
                first_index_of(a, "--"@, 0) == first_index_of(a, "--"@, k as int),
            decreases args.len() - k,
        {
            assert(a[k as int] == args@[k as int]@);
            if str_eq(args[k].as_str(), "--") {
                if k + 1 < args.len() {
                    return Invocation::Run { command: k + 1 };
                }
                return Invocation::MissingSeparator;
            }
            k = k + 1;
        }
        return Invocation::MissingSeparator;
    }
    Invocation::Run { command: 1 }
}

/// Where the stash lives, by the first setting that is present and not
/// empty: a directory given outright, the XDG data home, or the home
/// directory.
#[derive(Debug)]
pub enum DataDir {
    /// `FOLDBACK_DATA_DIR`, used as it is.
    Given(String),
    /// `foldback` under `XDG_DATA_HOME`.
    UnderXdg(String),
    /// `.local/share/foldback` under `HOME`.
    UnderHome(String),
}

/// The setting is present and not empty.
pub open spec fn set_to_something(v: Option<String>) -> bool {
    v matches Some(s) && s@.len() > 0
}

/// The message when no setting says where the stash lives.
pub open spec fn no_data_dir_text() -> Seq<char> {
    "cannot determine data dir: set FOLDBACK_DATA_DIR, XDG_DATA_HOME, or HOME"@
}

/// Choose where the stash lives from the values of `FOLDBACK_DATA_DIR`,
/// `XDG_DATA_HOME` and `HOME` (each `None` where unset or unreadable).
pub fn choose_data_dir(given: Option<String>, xdg: Option<String>, home: Option<String>) -> (r:
    Result<DataDir, String>)
    ensures
        set_to_something(given) ==> (r matches Ok(DataDir::Given(d)) && Some(d) == given),
        !set_to_something(given) && set_to_something(xdg) ==> (r matches Ok(DataDir::UnderXdg(d))
            && Some(d) == xdg),
        !set_to_something(given) && !set_to_something(xdg) && set_to_something(home) ==> (r matches Ok(
            DataDir::UnderHome(d),
        ) && Some(d) == home),
        !set_to_something(given) && !set_to_something(xdg) && !set_to_something(home) ==> (r matches Err(
            m,
        ) && m@ == no_data_dir_text()),
{
    if let Some(d) = given {
        if !d.as_str().is_empty() {
            return Ok(DataDir::Given(d));
        }
    }
    if let Some(d) = xdg {
        if !d.as_str().is_empty() {
            return Ok(DataDir::UnderXdg(d));
        }
    }
    if let Some(d) = home {
        if !d.as_str().is_empty() {
            return Ok(DataDir::UnderHome(d));
        }
    }
    Err(
        String::from_str(
            "cannot determine data dir: set FOLDBACK_DATA_DIR, XDG_DATA_HOME, or HOME",
        ),
    )
}

/// Specialised reducers run unless `FOLDBACK_REDUCERS` is exactly `0`; the
/// generic condenser runs either way.
pub fn reducers_enabled(setting: Option<&str>) -> (r: bool)
    ensures
        r == !(setting matches Some(s) && s@ == "0"@),
{
    match setting {
        Some(s) => !str_eq(s, "0"),
        None => true,
    }
}

} // verus!
