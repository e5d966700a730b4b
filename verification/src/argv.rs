//! Recognition of the command patterns that have a specialised reducer.
use vstd::prelude::*;
use vstd::string::StringSliceAdditionalSpecFns;

use crate::text::{
    bytes_eq, is_ascii_digit, last_index_of, last_index_of_exec, lit, starts_with, starts_with_exec,
    string_bytes,
};

verus! {

/// Recognized command patterns for reducer dispatch.
///
/// `Generic` means no specialized reducer is registered for this command.
#[derive(Debug, Clone, Copy, PartialEq, Eq, Structural)]
pub enum NormalizedCommand {
    /// `pytest` invoked directly, or `python* -m pytest`
    Pytest { module_invocation: bool },
    /// `cargo test [...]`
    CargoTest,
    /// Everything else — falls through to generic head/tail condenser
    Generic,
}

pub const SLASH: u8 = 47;

pub const DOT: u8 = 46;

/// The last `/`-separated component of a command path.
pub open spec fn basename(command: Seq<u8>) -> Seq<u8> {
    match last_index_of(command, SLASH) {
        Some(i) => command.skip(i + 1),
        None => command,
    }
}

/// `python`, or `python` followed by a digit and then only digits and dots.
pub open spec fn python_executable(name: Seq<u8>) -> bool {
    let p = lit("python");
    name == p || (starts_with(name, p) && name.len() > p.len() && is_ascii_digit(name[p.len() as int])
        && forall|k: int|
        p.len() <= k < name.len() ==> (is_ascii_digit(#[trigger] name[k]) || name[k] == DOT))
}

/// The bytes of the `i`-th argument.
pub open spec fn arg_bytes(args: Seq<String>, i: int) -> Seq<u8> {
    string_bytes(args[i])
}

/// The index of the first argument from `i` on equal to `target`.
pub open spec fn first_arg_index(args: Seq<String>, target: Seq<u8>, i: int) -> Option<int>
    decreases args.len() - i,
{
    if i < 0 || i >= args.len() {
        None
    } else if arg_bytes(args, i) == target {
        Some(i)
    } else {
        first_arg_index(args, target, i + 1)
    }
}

/// `-m pytest`: the first `-m` argument is immediately followed by `pytest`.
pub open spec fn runs_pytest_module(args: Seq<String>) -> bool {
    match first_arg_index(args, lit("-m"), 0) {
        Some(k) => k + 1 < args.len() && arg_bytes(args, k + 1) == lit("pytest"),
        None => false,
    }
}

/// The normalization rules, in priority order.
pub open spec fn normalized(command: Seq<u8>, args: Seq<String>) -> NormalizedCommand {
    let base = basename(command);
    if base == lit("cargo") && args.len() > 0 && arg_bytes(args, 0) == lit("test") {
        NormalizedCommand::CargoTest
    } else if base == lit("pytest") {
        NormalizedCommand::Pytest { module_invocation: false }
    } else if python_executable(base) && runs_pytest_module(args) {
        NormalizedCommand::Pytest { module_invocation: true }
    } else {
        NormalizedCommand::Generic
    }
}

/// Normalize `command` + `args` into a `NormalizedCommand`.
///
/// Rules (evaluated in priority order):
/// 1. `cargo test …` → `CargoTest`
/// 2. `pytest` (basename) → `Pytest { module_invocation: false }`
/// 3. `python` / `python3` / `python3.12` + adjacent `-m pytest` → `Pytest { module_invocation: true }`
/// 4. Anything else → `Generic`
pub fn normalize(command: &str, args: &[String]) -> (r: NormalizedCommand)
    ensures
        r == normalized(command.spec_bytes(), args@),
{
    let base = command_basename(command.as_bytes());
    if bytes_eq(base, "cargo".as_bytes()) && args.len() > 0 && bytes_eq(
        args[0].as_str().as_bytes(),
        "test".as_bytes(),
    ) {
        return NormalizedCommand::CargoTest;
    }
    if bytes_eq(base, "pytest".as_bytes()) {
        return NormalizedCommand::Pytest { module_invocation: false };
    }
    if python_name(base) && pytest_module_args(args) {
        return NormalizedCommand::Pytest { module_invocation: true };
    }
    NormalizedCommand::Generic
}

/// Extract the basename of `command` (last path component).
fn command_basename(command: &[u8]) -> (r: &[u8])
    ensures
        r@ == basename(command@),
{
    match last_index_of_exec(command, SLASH) {
        Some(i) => {
            let r = &command[i + 1..command.len()];
            assert(r@ =~= command@.skip(i + 1));
            r
        },
        None => command,
    }
}

fn pytest_module_args(args: &[String]) -> (r: bool)
    ensures
        r == runs_pytest_module(args@),
{
    let mut i: usize = 0;
    while i < args.len()
        invariant
            i <= args.len(),
            first_arg_index(args@, lit("-m"), 0) == first_arg_index(args@, lit("-m"), i as int),
        decreases args.len() - i,
    {
        if bytes_eq(args[i].as_str().as_bytes(), "-m".as_bytes()) {
            return i + 1 < args.len() && bytes_eq(
                args[i + 1].as_str().as_bytes(),
                "pytest".as_bytes(),
            );
        }
        i = i + 1;
    }
    false
}

/// Return `true` iff `basename` is a recognized Python executable.
///
/// Accepts: `python`, `python3`, `python3.12`, `python3.12.1`.
/// Rejects: `python-malware`, `pythonista`, `python_script`.
pub fn is_python_executable(basename: &str) -> (r: bool)
    ensures
        r == python_executable(basename.spec_bytes()),
{
    python_name(basename.as_bytes())
}

fn python_name(name: &[u8]) -> (r: bool)
    ensures
        r == python_executable(name@),
{
    let p = "python".as_bytes();
    if bytes_eq(name, p) {
        return true;
    }
    if !starts_with_exec(name, p) || name.len() <= p.len() {
        return false;
    }
    if !(48 <= name[p.len()] && name[p.len()] <= 57) {
        return false;
    }
    let mut k = p.len();
    while k < name.len()
        invariant
            p@ == lit("python"),
            p.len() <= k <= name.len(),
            forall|m: int| p.len() <= m < k ==> (is_ascii_digit(#[trigger] name@[m]) || name@[m] == DOT),
        decreases name.len() - k,
    {
        if !((48 <= name[k] && name[k] <= 57) || name[k] == DOT) {
            return false;
        }
        k = k + 1;
    }
    true
}

/// A python interpreter run as `-m pytest` is a pytest run: whenever the
/// first `-m` among the arguments, wherever it stands, is immediately
/// followed by `pytest`, the command normalizes to a module invocation of
/// pytest.
pub proof fn law_python_m_pytest_anywhere(command: Seq<u8>, args: Seq<String>, k: int)
    requires
        python_executable(basename(command)),
        0 <= k,
        k + 1 < args.len(),
        arg_bytes(args, k) == lit("-m"),
        forall|j: int| 0 <= j < k ==> arg_bytes(args, j) != lit("-m"),
        arg_bytes(args, k + 1) == lit("pytest"),
    ensures
        normalized(command, args) == (NormalizedCommand::Pytest { module_invocation: true }),
{
    let base = basename(command);
    reveal_strlit("python");
    reveal_strlit("cargo");
    reveal_strlit("pytest");
    vstd::string::is_ascii_spec_bytes("python");
    vstd::string::is_ascii_spec_bytes("cargo");
    vstd::string::is_ascii_spec_bytes("pytest");
    assert(lit("python").len() == 6);
    assert(lit("cargo").len() == 5);
    assert(base.len() >= 6);
    assert(base != lit("cargo"));
    assert(lit("python")[3] == 104);
    assert(lit("pytest")[3] == 101);
    assert(base[3] == 104) by {
        if base != lit("python") {
            assert(base.subrange(0, 6) == lit("python"));
            assert(base.subrange(0, 6)[3] == base[3]);
        }
    }
    assert(base != lit("pytest"));
    lemma_first_arg_index_at(args, lit("-m"), 0, k);
}

/// The first index from `i` on holding `target` is `k` when `k` holds it and
/// none before it does.
proof fn lemma_first_arg_index_at(args: Seq<String>, target: Seq<u8>, i: int, k: int)
    requires
        0 <= i <= k < args.len(),
        arg_bytes(args, k) == target,
        forall|j: int| i <= j < k ==> arg_bytes(args, j) != target,
    ensures
        first_arg_index(args, target, i) == Some(k),
    decreases k - i,
{
    if i < k {
        lemma_first_arg_index_at(args, target, i + 1, k);
    }
}

} // verus!
