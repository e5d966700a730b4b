//! Cargo-test-specific reducer.
//!
//! Passthrough gates (skipped before any parsing): the stderr channel, empty
//! stdout, a `--message-format` argument, non-UTF-8 stdout.
//!
//! Candidate body (stdout only): `running N tests` headers, `FAILED` lines,
//! the `failures:` sections and every `test result:` line are kept verbatim;
//! `test <name> ... ok` / `... ignored` progress lines are dropped. Without a
//! `test result:` line the output is not understood (`ParseFailed`).
use vstd::prelude::*;

use crate::argv::NormalizedCommand;
use crate::display::context::ChannelContext;
use crate::display::registry::Reducer;
use crate::display::outcome::{
    skipped_outcome, summary_outcome, Outcome, ReduceOutcome, ReductionKind, Recoverability,
    SkipReason, ViewKind,
};
use crate::stash::Channel;
use crate::text::{
    bytes_eq, embeds, ends_with, ends_with_exec, is_valid_utf8, join_lines, lemma_join_push, line_ranges,
    lines, lit, push_line, ranges_of, starts_with, starts_with_exec, string_bytes, NEWLINE,
};

verus! {

broadcast use vstd::seq_lib::group_seq_properties;

#[derive(Debug, Clone, Copy)]
pub struct CargoTestReducer;

pub open spec fn is_result_line(l: Seq<u8>) -> bool {
    starts_with(l, lit("test result:"))
}

/// `running N tests` / `running 1 test`.
pub open spec fn is_running_header(l: Seq<u8>) -> bool {
    starts_with(l, lit("running ")) && (ends_with(l, lit(" tests")) || ends_with(l, lit(" test")))
}

/// `test <name> ... ok` / `test <name> ... ignored`.
pub open spec fn is_test_progress_skip(l: Seq<u8>) -> bool {
    starts_with(l, lit("test ")) && (ends_with(l, lit(" ... ok")) || ends_with(
        l,
        lit(" ... ignored"),
    ))
}

/// Whether `line` is kept, and whether a failure section is open after it.
pub open spec fn cargo_step(line: Seq<u8>, in_failures: bool) -> (bool, bool) {
    if is_result_line(line) || is_running_header(line) {
        (true, false)
    } else if line == lit("failures:") {
        (true, true)
    } else if in_failures {
        (true, true)
    } else if is_test_progress_skip(line) {
        (false, false)
    } else {
        (true, false)
    }
}

/// The lines kept among the first `n`, and whether a failure section is open.
pub open spec fn cargo_kept(ls: Seq<Seq<u8>>, n: int) -> (Seq<Seq<u8>>, bool)
    decreases n,
{
    if n <= 0 {
        (seq![], false)
    } else {
        let prev = cargo_kept(ls, n - 1);
        let step = cargo_step(ls[n - 1], prev.1);
        (
            if step.0 {
                prev.0.push(ls[n - 1])
            } else {
                prev.0
            },
            step.1,
        )
    }
}

pub open spec fn has_result_line(ls: Seq<Seq<u8>>) -> bool {
    exists|i: int| 0 <= i < ls.len() && is_result_line(#[trigger] ls[i])
}

/// The reduced body of `cargo test` stdout, or `None` without a `test result:` line.
#[verifier::opaque]
pub open spec fn cargo_candidate(text: Seq<u8>) -> Option<Seq<u8>> {
    let ls = lines(text);
    if !has_result_line(ls) {
        None
    } else {
        Some(
            join_lines(cargo_kept(ls, ls.len() as int).0) + if ends_with(text, seq![NEWLINE]) {
                seq![NEWLINE]
            } else {
                Seq::empty()
            },
        )
    }
}

/// Any argument is `--message-format` or starts with `--message-format=`.
pub open spec fn message_format_requested(args: Seq<String>) -> bool {
    exists|i: int|
        0 <= i < args.len() && (string_bytes(#[trigger] args[i]) == lit("--message-format")
            || starts_with(string_bytes(args[i]), lit("--message-format=")))
}

/// What the cargo-test reducer makes of `input` in `ctx`.
pub open spec fn cargo_reduction(input: Seq<u8>, ctx: ChannelContext) -> Outcome {
    if ctx.channel == Channel::Stderr {
        skipped_outcome(SkipReason::ParseFailed)
    } else if input.len() == 0 {
        skipped_outcome(SkipReason::Empty)
    } else if message_format_requested(ctx.command.args@) {
        skipped_outcome(SkipReason::MachineReadable)
    } else if !vstd::utf8::valid_utf8(input) {
        skipped_outcome(SkipReason::NonUtf8)
    } else {
        match cargo_candidate(input) {
            Some(c) => summary_outcome(c, ViewKind::CargoTestSummary),
            None => skipped_outcome(SkipReason::ParseFailed),
        }
    }
}

impl Reducer for CargoTestReducer {
    open spec fn handles(&self, norm: NormalizedCommand) -> bool {
        norm == NormalizedCommand::CargoTest
    }

    open spec fn reduction(&self, input: Seq<u8>, ctx: ChannelContext) -> Outcome {
        cargo_reduction(input, ctx)
    }

    open spec fn label(&self) -> Seq<char> {
        "cargo-test"@
    }

    fn name(&self) -> (r: &'static str) {
        "cargo-test"
    }

    fn matches(&self, norm: &NormalizedCommand) -> (r: bool) {
        match norm {
            NormalizedCommand::CargoTest => true,
            _ => false,
        }
    }

    fn reduce(&self, input: &[u8], ctx: &ChannelContext) -> (r: ReduceOutcome) {
        // Stderr: compile diagnostics are conservative generic/raw.
        if ctx.channel == Channel::Stderr {
            return ReduceOutcome::skipped(SkipReason::ParseFailed);
        }
        if input.len() == 0 {
            return ReduceOutcome::skipped(SkipReason::Empty);
        }
        if has_message_format_arg(&ctx.command.args) {
            return ReduceOutcome::skipped(SkipReason::MachineReadable);
        }
        if !is_valid_utf8(input) {
            return ReduceOutcome::skipped(SkipReason::NonUtf8);
        }
        match reduce_cargo_stdout(input) {
            Some(candidate) => ReduceOutcome {
                display: candidate,
                applied: true,
                view: ViewKind::CargoTestSummary,
                reduction: ReductionKind::SemanticSummary,
                recoverability: Recoverability::Retrievable,
                skip_reason: None,
            },
            None => ReduceOutcome::skipped(SkipReason::ParseFailed),
        }
    }
}

/// Return `true` if any arg equals `--message-format` or starts with `--message-format=`.
pub fn has_message_format_arg(args: &Vec<String>) -> (r: bool)
    ensures
        r == message_format_requested(args@),
{
    let mut i: usize = 0;
    while i < args.len()
        invariant
            i <= args.len(),
            forall|k: int|
                0 <= k < i ==> !(string_bytes(#[trigger] args@[k]) == lit("--message-format")
                    || starts_with(string_bytes(args@[k]), lit("--message-format="))),
        decreases args.len() - i,
    {
        let a = args[i].as_str().as_bytes();
        if bytes_eq(a, "--message-format".as_bytes()) || starts_with_exec(
            a,
            "--message-format=".as_bytes(),
        ) {
            return true;
        }
        i = i + 1;
    }
    false
}

/// True for `running N tests` or `running 1 test`.
pub fn is_running_header_exec(line: &[u8]) -> (r: bool)
    ensures
        r == is_running_header(line@),
{
    starts_with_exec(line, "running ".as_bytes()) && (ends_with_exec(line, " tests".as_bytes())
        || ends_with_exec(line, " test".as_bytes()))
}

/// True for progress lines that are dropped: `test ... ok` / `test ... ignored`.
pub fn is_test_progress_skip_exec(line: &[u8]) -> (r: bool)
    ensures
        r == is_test_progress_skip(line@),
{
    starts_with_exec(line, "test ".as_bytes()) && (ends_with_exec(line, " ... ok".as_bytes())
        || ends_with_exec(line, " ... ignored".as_bytes()))
}

fn cargo_step_exec(line: &[u8], in_failures: bool) -> (r: (bool, bool))
    ensures
        r == cargo_step(line@, in_failures),
{
    if starts_with_exec(line, "test result:".as_bytes()) || is_running_header_exec(line) {
        (true, false)
    } else if bytes_eq(line, "failures:".as_bytes()) {
        (true, true)
    } else if in_failures {
        (true, true)
    } else if is_test_progress_skip_exec(line) {
        (false, false)
    } else {
        (true, false)
    }
}

/// The reduced candidate body for `cargo test` stdout.
///
/// Returns `None` when no `test result:` line is found; otherwise ok/ignored
/// progress lines are dropped and all failure sections and summaries are
/// kept verbatim.
pub fn reduce_cargo_stdout(text: &[u8]) -> (r: Option<Vec<u8>>)
    ensures
        match cargo_candidate(text@) {
            Some(c) => r matches Some(v) && v@ == c,
            None => r is None,
        },
{
    reveal(cargo_candidate);
    let rs = line_ranges(text);
    let ghost ls = lines(text@);
    let mut found = false;
    let mut i: usize = 0;
    while i < rs.len() && !found
        invariant
            i <= rs@.len(),
            crate::text::ranges_within(text@, rs@),
            ls == ranges_of(text@, rs@),
            found ==> i < rs@.len() && is_result_line(ls[i as int]),
            !found ==> forall|k: int| 0 <= k < i ==> !is_result_line(#[trigger] ls[k]),
        decreases rs.len() - i + (if found { 0int } else { 1int }),
    {
        let (a, b) = rs[i];
        assert(rs@[i as int].0 <= rs@[i as int].1 <= text@.len());
        if starts_with_exec(&text[a..b], "test result:".as_bytes()) {
            found = true;
        } else {
            i = i + 1;
        }
    }
    if !found {
        return None;
    }
    assert(has_result_line(ls)) by {
        assert(is_result_line(ls[i as int]));
    }
    let mut out: Vec<u8> = Vec::new();
    let mut in_failures = false;
    let mut nkept: usize = 0;
    let mut k: usize = 0;
    while k < rs.len()
        invariant
            k <= rs@.len(),
            crate::text::ranges_within(text@, rs@),
            ls == ranges_of(text@, rs@),
            cargo_kept(ls, k as int).1 == in_failures,
            cargo_kept(ls, k as int).0.len() == nkept,
            nkept <= k,
            out@ == join_lines(cargo_kept(ls, k as int).0),
        decreases rs.len() - k,
    {
        let (a, b) = rs[k];
        assert(rs@[k as int].0 <= rs@[k as int].1 <= text@.len());
        let line = &text[a..b];
        assert(line@ == ls[k as int]);
        let (keep, next) = cargo_step_exec(line, in_failures);
        proof {
            lemma_join_push(cargo_kept(ls, k as int).0, ls[k as int]);
        }
        if keep {
            push_line(&mut out, nkept == 0, line);
            nkept = nkept + 1;
        }
        in_failures = next;
        k = k + 1;
    }
    if ends_with_exec(text, "\n".as_bytes()) {
        out.push(NEWLINE);
    }
    proof {
        reveal_strlit("\n");
        vstd::string::is_ascii_spec_bytes("\n");
        assert(lit("\n") =~= seq![NEWLINE]);
    }
    Some(out)
}

/// The kept lines among the first `n` stand in the output in order, below
/// `n`, and every `test result:` line among them is kept.
proof fn lemma_cargo_kept_embeds(ls: Seq<Seq<u8>>, n: int) -> (idx: Seq<int>)
    requires
        0 <= n <= ls.len(),
    ensures
        embeds(cargo_kept(ls, n).0, ls, idx),
        forall|k: int| 0 <= k < idx.len() ==> #[trigger] idx[k] < n,
        forall|i: int|
            0 <= i < n && is_result_line(#[trigger] ls[i]) ==> exists|k: int|
                0 <= k < idx.len() && idx[k] == i,
    decreases n,
{
    if n == 0 {
        Seq::empty()
    } else {
        let prev = lemma_cargo_kept_embeds(ls, n - 1);
        let step = cargo_step(ls[n - 1], cargo_kept(ls, n - 1).1);
        if step.0 {
            let idx = prev.push(n - 1);
            assert forall|i: int| 0 <= i < n && is_result_line(#[trigger] ls[i]) implies exists|
                k: int,
            | 0 <= k < idx.len() && idx[k] == i by {
                if i == n - 1 {
                    assert(idx[idx.len() - 1] == i);
                } else {
                    let k = choose|k: int| 0 <= k < prev.len() && prev[k] == i;
                    assert(idx[k] == i);
                }
            }
            idx
        } else {
            assert(!is_result_line(ls[n - 1]));
            prev
        }
    }
}

/// The cargo-test summary is the output with some lines left out: its lines
/// stand in the output in the same order, and every `test result:` line of
/// the output is among them.
pub proof fn law_cargo_summary_keeps_result_lines(ls: Seq<Seq<u8>>) -> (idx: Seq<int>)
    ensures
        embeds(cargo_kept(ls, ls.len() as int).0, ls, idx),
        forall|i: int|
            0 <= i < ls.len() && is_result_line(#[trigger] ls[i]) ==> exists|k: int|
                0 <= k < idx.len() && idx[k] == i,
{
    lemma_cargo_kept_embeds(ls, ls.len() as int)
}

/// A `test <name> ... ok` or `test <name> ... ignored` progress line.
pub open spec fn progress_line(l: Seq<u8>) -> bool {
    starts_with(l, lit("test ")) && (ends_with(l, lit(" ... ok")) || ends_with(l, lit(" ... ignored")))
}

/// A line that ends a failure section: a `test result:` line or a
/// `running N tests` / `running 1 test` header.
pub open spec fn section_end(l: Seq<u8>) -> bool {
    starts_with(l, lit("test result:")) || (starts_with(l, lit("running ")) && (ends_with(
        l,
        lit(" tests"),
    ) || ends_with(l, lit(" test"))))
}

/// Line `k` stands in a failure section: an earlier line is `failures:` and
/// no line that ends a section comes between them.
pub open spec fn in_failure_section(ls: Seq<Seq<u8>>, k: int) -> bool {
    exists|j: int|
        0 <= j < k && #[trigger] ls[j] == lit("failures:") && forall|m: int|
            j < m < k ==> !section_end(#[trigger] ls[m])
}

proof fn lemma_failures_line_is_no_section_end()
    ensures
        !section_end(lit("failures:")),
{
    reveal_strlit("failures:");
    reveal_strlit("test result:");
    reveal_strlit("running ");
    vstd::string::is_ascii_spec_bytes("failures:");
    vstd::string::is_ascii_spec_bytes("test result:");
    vstd::string::is_ascii_spec_bytes("running ");
    let f = lit("failures:");
    assert(f.len() == 9);
    assert(lit("test result:").len() == 12);
    assert(f[0] != lit("running ")[0]);
    if starts_with(f, lit("running ")) {
        assert(f.subrange(0, 8)[0] == f[0]);
    }
}

/// After `n` lines the reducer is inside a failure section exactly when
/// line `n` would stand in one.
proof fn lemma_cargo_state(ls: Seq<Seq<u8>>, n: int)
    requires
        0 <= n <= ls.len(),
    ensures
        cargo_kept(ls, n).1 == in_failure_section(ls, n),
    decreases n,
{
    if n > 0 {
        lemma_cargo_state(ls, n - 1);
        lemma_failures_line_is_no_section_end();
        let l = ls[n - 1];
        if section_end(l) {
            if in_failure_section(ls, n) {
                let j = choose|j: int|
                    0 <= j < n && #[trigger] ls[j] == lit("failures:") && forall|m: int|
                        j < m < n ==> !section_end(#[trigger] ls[m]);
                if j < n - 1 {
                    assert(!section_end(ls[n - 1]));
                }
            }
        } else if l == lit("failures:") {
            assert(forall|m: int| n - 1 < m < n ==> !section_end(#[trigger] ls[m]));
            assert(in_failure_section(ls, n));
        } else {
            if in_failure_section(ls, n - 1) {
                let j = choose|j: int|
                    0 <= j < n - 1 && #[trigger] ls[j] == lit("failures:") && forall|m: int|
                        j < m < n - 1 ==> !section_end(#[trigger] ls[m]);
                assert(forall|m: int| j < m < n ==> !section_end(#[trigger] ls[m]));
                assert(in_failure_section(ls, n));
            }
            if in_failure_section(ls, n) {
                let j = choose|j: int|
                    0 <= j < n && #[trigger] ls[j] == lit("failures:") && forall|m: int|
                        j < m < n ==> !section_end(#[trigger] ls[m]);
                assert(j < n - 1);
                assert(forall|m: int| j < m < n - 1 ==> !section_end(#[trigger] ls[m]));
                assert(in_failure_section(ls, n - 1));
            }
        }
    }
}

/// Which of the first `n` lines are kept: exactly those that are not
/// progress lines standing outside a failure section.
proof fn lemma_cargo_kept_exactly(ls: Seq<Seq<u8>>, n: int) -> (idx: Seq<int>)
    requires
        0 <= n <= ls.len(),
    ensures
        embeds(cargo_kept(ls, n).0, ls, idx),
        forall|k: int| 0 <= k < idx.len() ==> #[trigger] idx[k] < n,
        forall|i: int|
            0 <= i < n ==> ((exists|k: int| 0 <= k < idx.len() && idx[k] == i) <==> !(progress_line(
                #[trigger] ls[i],
            ) && !section_end(ls[i]) && ls[i] != lit("failures:") && !in_failure_section(ls, i))),
    decreases n,
{
    if n == 0 {
        Seq::empty()
    } else {
        let prev = lemma_cargo_kept_exactly(ls, n - 1);
        lemma_cargo_state(ls, n - 1);
        let l = ls[n - 1];
        let step = cargo_step(l, cargo_kept(ls, n - 1).1);
        assert(step.0 == !(progress_line(l) && !section_end(l) && l != lit("failures:")
            && !in_failure_section(ls, n - 1)));
        if step.0 {
            let idx = prev.push(n - 1);
            assert forall|i: int| 0 <= i < n implies ((exists|k: int|
                0 <= k < idx.len() && idx[k] == i) <==> !(progress_line(#[trigger] ls[i])
                && !section_end(ls[i]) && ls[i] != lit("failures:") && !in_failure_section(
                ls,
                i,
            ))) by {
                if i == n - 1 {
                    assert(idx[idx.len() - 1] == i);
                } else {
                    if exists|k: int| 0 <= k < prev.len() && prev[k] == i {
                        let k = choose|k: int| 0 <= k < prev.len() && prev[k] == i;
                        assert(idx[k] == i);
                    }
                    if exists|k: int| 0 <= k < idx.len() && idx[k] == i {
                        let k = choose|k: int| 0 <= k < idx.len() && idx[k] == i;
                        assert(k < prev.len());
                        assert(prev[k] == i);
                    }
                }
            }
            idx
        } else {
            assert forall|i: int| 0 <= i < n implies ((exists|k: int|
                0 <= k < prev.len() && prev[k] == i) <==> !(progress_line(#[trigger] ls[i])
                && !section_end(ls[i]) && ls[i] != lit("failures:") && !in_failure_section(
                ls,
                i,
            ))) by {
                if i == n - 1 {
                    if exists|k: int| 0 <= k < prev.len() && prev[k] == i {
                        let k = choose|k: int| 0 <= k < prev.len() && prev[k] == i;
                        assert(prev[k] < n - 1);
                    }
                }
            }
            prev
        }
    }
}

/// The cargo-test summary drops exactly the `... ok` / `... ignored`
/// progress lines that stand outside a failure section (a section opens at
/// `failures:` and closes at `test result:` or `running N tests`); every other
/// line is kept, in order.
pub proof fn law_cargo_summary_drops_only_passing_progress(ls: Seq<Seq<u8>>) -> (idx: Seq<int>)
    ensures
        embeds(cargo_kept(ls, ls.len() as int).0, ls, idx),
        forall|i: int|
            0 <= i < ls.len() ==> ((exists|k: int| 0 <= k < idx.len() && idx[k] == i) <==> !(
            progress_line(#[trigger] ls[i]) && !section_end(ls[i]) && ls[i] != lit("failures:")
                && !in_failure_section(ls, i))),
{
    lemma_cargo_kept_exactly(ls, ls.len() as int)
}

} // verus!
