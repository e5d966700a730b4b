//! Pytest-specific reducer.
//!
//! Extracts failure/error blocks, the short-test-summary section, a warnings
//! summary (capped at 5 content lines), and the final summary line from
//! `pytest` stdout.  All other output (progress dots, PASSED lines, header
//! preamble) is discarded. The candidate body returned here carries no
//! marker; the pipeline appends it.
use vstd::prelude::*;
use vstd::string::StringSliceAdditionalSpecFns;

use crate::argv::NormalizedCommand;
use crate::display::context::ChannelContext;
use crate::display::registry::Reducer;
use crate::display::outcome::{
    skipped_outcome, summary_outcome, Outcome, ReduceOutcome, ReductionKind, Recoverability,
    SkipReason, ViewKind,
};
use crate::stash::Channel;
use crate::text::{
    decimal, is_valid_utf8, join_lines, lemma_join_push, line_ranges, lines, push_decimal,
    push_line, push_str, ranges_of, ranges_within, NEWLINE,
};
use crate::text::{
    ascii_lower, ascii_lowercase, bytes_eq, contains, contains_exec, ends_with, ends_with_exec,
    is_ascii_digit, lit, next_index_of, next_index_of_exec, parses_as_u64, parses_as_u64_exec,
    occurs_at, rfind, rfind_exec, split, split_from, starts_with, starts_with_exec, string_bytes, trim,
    trim_byte, trim_byte_range, trim_range, SPACE,
};

verus! {

broadcast use vstd::seq_lib::group_seq_properties;

/// Maximum warning content lines to include in the summary view.
pub const MAX_WARNING_LINES: usize = 5;

pub const EQUALS: u8 = 61;

pub const COMMA: u8 = 44;

pub const DASH: u8 = 45;

pub const LETTER_V: u8 = 118;

pub const LETTER_S: u8 = 115;

// ── line classification ────────────────────────────────────────────────────

/// `====== <summary> ======` whose inner text starts with a digit or `no tests ran`.
pub open spec fn bordered_summary_line(line: Seq<u8>) -> bool {
    let t = trim(line);
    t.len() > 0 && t[0] == EQUALS && t.last() == EQUALS && {
        let inner = trim(trim_byte(t, EQUALS));
        inner.len() > 0 && (is_ascii_digit(inner[0]) || starts_with(inner, lit("no tests ran")))
    }
}

/// Bytes that may precede the final `s` of a duration.
pub open spec fn duration_byte(b: u8) -> bool {
    is_ascii_digit(b) || b == 46 || b == 109 || b == 104 || b == SPACE
}

/// At least two bytes, ending with `s`, the rest digits and `.`, `m`, `h`,
/// space, with at least one digit.
pub open spec fn duration_text(s: Seq<u8>) -> bool {
    s.len() >= 2 && s.last() == LETTER_S && (exists|k: int|
        0 <= k < s.len() - 1 && is_ascii_digit(#[trigger] s[k])) && (forall|k: int|
        0 <= k < s.len() - 1 ==> duration_byte(#[trigger] s[k]))
}

/// A recognised pytest run-result status word.
pub open spec fn status_word(s: Seq<u8>) -> bool {
    s == lit("passed") || s == lit("failed") || s == lit("error") || s == lit("errors") || s
        == lit("skipped") || s == lit("xfailed") || s == lit("xpassed") || s == lit("warning")
        || s == lit("warnings") || s == lit("deselected")
}

/// `<count> <status-word>` in a trimmed piece.
pub open spec fn status_item(p: Seq<u8>) -> bool {
    let sp = next_index_of(p, SPACE, 0);
    sp < p.len() && parses_as_u64(p.take(sp)) && status_word(trim(p.skip(sp + 1)))
}

/// A comma-separated list of status items.
pub open spec fn status_list(body: Seq<u8>) -> bool {
    forall|k: int| 0 <= k < split(body, COMMA).len() ==> status_item(trim(#[trigger] split(body, COMMA)[k]))
}

/// The bare (`pytest -q`) final summary: `N passed, M failed in 1.23s` or
/// `no tests ran in 0.01s`.
pub open spec fn bare_summary_line(line: Seq<u8>) -> bool {
    let s = trim(line);
    if s.len() == 0 {
        false
    } else if starts_with(s, lit("no tests ran")) {
        let rest = s.skip(lit("no tests ran").len() as int);
        starts_with(rest, lit(" in ")) && duration_text(trim(rest.skip(lit(" in ").len() as int)))
    } else if !is_ascii_digit(s[0]) {
        false
    } else {
        match rfind(s, lit(" in ")) {
            None => false,
            Some(p) => duration_text(trim(s.skip(p + lit(" in ").len()))) && status_list(
                trim(s.take(p)),
            ),
        }
    }
}

pub open spec fn final_summary_line(line: Seq<u8>) -> bool {
    bordered_summary_line(line) || bare_summary_line(line)
}

/// Any `===` … `===` line of at least five bytes after trimming.
pub open spec fn major_header_line(line: Seq<u8>) -> bool {
    let t = trim(line);
    t.len() >= 5 && starts_with(t, lit("===")) && ends_with(t, lit("==="))
}

/// The interior text of a `= … =` bordered line.
pub open spec fn header_title(line: Seq<u8>) -> Seq<u8> {
    trim(trim_byte(trim(line), EQUALS))
}

/// ASCII-case-insensitive containment.
pub open spec fn contains_ci(title: Seq<u8>, needle: Seq<u8>) -> bool {
    contains(ascii_lower(title), ascii_lower(needle))
}

/// `-` followed by one or more `v` and nothing else.
pub open spec fn verbosity_flag(s: Seq<u8>) -> bool {
    s.len() >= 2 && s[0] == DASH && forall|k: int| 1 <= k < s.len() ==> #[trigger] s[k] == LETTER_V
}

/// An argument that asks pytest for machine-oriented output.
pub open spec fn machine_readable_arg(a: Seq<u8>) -> bool {
    a == lit("--collect-only") || a == lit("--co") || a == lit("--verbose") || verbosity_flag(a)
        || starts_with(a, lit("--json-report")) || starts_with(a, lit("--junitxml"))
        || starts_with(a, lit("--junit-xml"))
}

pub open spec fn machine_readable_requested(args: Seq<String>) -> bool {
    exists|i: int| 0 <= i < args.len() && machine_readable_arg(string_bytes(#[trigger] args[i]))
}

// ── executable classification ───────────────────────────────────────────────

/// Return `true` when `line` is a pytest final-summary line in either format:
/// bordered (`====== N passed in Xs ======`) or bare (`N passed in Xs`).
pub fn is_final_summary(line: &str) -> (r: bool)
    ensures
        r == final_summary_line(line.spec_bytes()),
{
    final_summary_bytes(line.as_bytes())
}

pub fn is_bordered_final_summary(line: &str) -> (r: bool)
    ensures
        r == bordered_summary_line(line.spec_bytes()),
{
    bordered_summary_bytes(line.as_bytes())
}

pub fn is_bare_final_summary(line: &str) -> (r: bool)
    ensures
        r == bare_summary_line(line.spec_bytes()),
{
    bare_summary_bytes(line.as_bytes())
}

/// `true` iff `s` looks like a pytest duration: at least two characters, ends
/// with `'s'`, everything before it ASCII digits and `.`, `m`, `h`, ` `, with
/// at least one digit.
pub fn looks_like_duration(s: &str) -> (r: bool)
    ensures
        r == duration_text(s.spec_bytes()),
{
    let b = s.as_bytes();
    duration_range(b, 0, b.len())
}

/// `true` iff `s` is a recognised pytest run-result status word.
pub fn is_pytest_status_word(s: &str) -> (r: bool)
    ensures
        r == status_word(s.spec_bytes()),
{
    let b = s.as_bytes();
    status_word_range(b, 0, b.len())
}

/// Return `true` for any `=` … `=` bordered line (major section header or summary).
pub fn is_major_section_header(line: &str) -> (r: bool)
    ensures
        r == major_header_line(line.spec_bytes()),
{
    major_header_bytes(line.as_bytes())
}

/// Case-insensitive contains check.
pub fn title_contains_ci(title: &str, needle: &str) -> (r: bool)
    ensures
        r == contains_ci(title.spec_bytes(), needle.spec_bytes()),
{
    contains_ci_bytes(title.as_bytes(), needle.as_bytes())
}

/// Return `true` iff `s` is a single-dash verbosity flag: exactly `-`
/// followed by one or more `v` characters (e.g. `-v`, `-vv`, `-vvv`).
pub fn is_verbosity_flag(s: &str) -> (r: bool)
    ensures
        r == verbosity_flag(s.spec_bytes()),
{
    verbosity_flag_bytes(s.as_bytes())
}

pub fn final_summary_bytes(line: &[u8]) -> (r: bool)
    ensures
        r == final_summary_line(line@),
{
    bordered_summary_bytes(line) || bare_summary_bytes(line)
}

fn whole(line: &[u8]) -> (r: (usize, usize))
    ensures
        r.0 <= r.1 <= line.len(),
        line@.subrange(r.0 as int, r.1 as int) == trim(line@),
{
    let r = trim_range(line, 0, line.len());
    assert(line@.subrange(0, line.len() as int) =~= line@);
    r
}

pub fn bordered_summary_bytes(line: &[u8]) -> (r: bool)
    ensures
        r == bordered_summary_line(line@),
{
    let (a, e) = whole(line);
    let t = &line[a..e];
    if t.len() == 0 || t[0] != EQUALS || t[t.len() - 1] != EQUALS {
        return false;
    }
    let (x, y) = trim_byte_range(t, 0, t.len(), EQUALS);
    assert(t@.subrange(0, t.len() as int) =~= t@);
    let (p, q) = trim_range(t, x, y);
    let inner = &t[p..q];
    inner.len() > 0 && ((48 <= inner[0] && inner[0] <= 57) || starts_with_exec(
        inner,
        "no tests ran".as_bytes(),
    ))
}

fn duration_range(s: &[u8], from: usize, to: usize) -> (r: bool)
    requires
        from <= to <= s.len(),
    ensures
        r == duration_text(s@.subrange(from as int, to as int)),
{
    let ghost t = s@.subrange(from as int, to as int);
    if to - from < 2 || s[to - 1] != LETTER_S {
        return false;
    }
    let mut digit = false;
    let mut k = from;
    while k < to - 1
        invariant
            t == s@.subrange(from as int, to as int),
            from <= k <= to - 1,
            to - from >= 2,
            to <= s.len(),
            forall|m: int| 0 <= m < k - from ==> duration_byte(#[trigger] t[m]),
            digit <==> exists|m: int| 0 <= m < k - from && is_ascii_digit(#[trigger] t[m]),
        decreases to - 1 - k,
    {
        let c = s[k];
        assert(t[k - from] == c);
        if !((48 <= c && c <= 57) || c == 46 || c == 109 || c == 104 || c == SPACE) {
            assert(!duration_byte(t[k - from]));
            return false;
        }
        if 48 <= c && c <= 57 {
            digit = true;
        }
        k = k + 1;
    }
    digit
}

fn status_word_range(s: &[u8], from: usize, to: usize) -> (r: bool)
    requires
        from <= to <= s.len(),
    ensures
        r == status_word(s@.subrange(from as int, to as int)),
{
    let w = &s[from..to];
    bytes_eq(w, "passed".as_bytes()) || bytes_eq(w, "failed".as_bytes()) || bytes_eq(
        w,
        "error".as_bytes(),
    ) || bytes_eq(w, "errors".as_bytes()) || bytes_eq(w, "skipped".as_bytes()) || bytes_eq(
        w,
        "xfailed".as_bytes(),
    ) || bytes_eq(w, "xpassed".as_bytes()) || bytes_eq(w, "warning".as_bytes()) || bytes_eq(
        w,
        "warnings".as_bytes(),
    ) || bytes_eq(w, "deselected".as_bytes())
}

/// A trimmed piece `p = s[from..to]` is `<count> <status-word>`.
fn status_item_range(s: &[u8], from: usize, to: usize) -> (r: bool)
    requires
        from <= to <= s.len(),
    ensures
        r == status_item(s@.subrange(from as int, to as int)),
{
    let p = &s[from..to];
    let sp = next_index_of_exec(p, SPACE, 0);
    if sp >= p.len() {
        return false;
    }
    if !parses_as_u64_exec(p, 0, sp) {
        assert(p@.subrange(0, sp as int) =~= p@.take(sp as int));
        return false;
    }
    assert(p@.subrange(0, sp as int) =~= p@.take(sp as int));
    let (x, y) = trim_range(p, sp + 1, p.len());
    assert(p@.subrange(sp + 1, p.len() as int) =~= p@.skip(sp + 1));
    status_word_range(p, x, y)
}

/// Every comma-separated piece of `s[from..to]`, trimmed, is a status item.
fn status_list_range(s: &[u8], from: usize, to: usize) -> (r: bool)
    requires
        from <= to <= s.len(),
    ensures
        r == status_list(s@.subrange(from as int, to as int)),
{
    let body = &s[from..to];
    let ghost pieces = split(body@, COMMA);
    let mut i: usize = 0;
    let ghost mut done: Seq<Seq<u8>> = seq![];
    loop
        invariant
            i <= body.len(),
            body@ == s@.subrange(from as int, to as int),
            pieces == split(body@, COMMA),
            pieces == done + split_from(body@, COMMA, i as int),
            forall|k: int| 0 <= k < done.len() ==> status_item(trim(#[trigger] done[k])),
        decreases body.len() - i,
    {
        let j = next_index_of_exec(body, COMMA, i);
        let (x, y) = trim_range(body, i, j);
        let ok = status_item_range(body, x, y);
        proof {
            crate::text::lemma_next_index_of_bounds(body@, COMMA, i as int);
            if j < body.len() {
                assert(split_from(body@, COMMA, i as int) == seq![body@.subrange(i as int, j as int)]
                    + split_from(body@, COMMA, j + 1));
            } else {
                assert(split_from(body@, COMMA, i as int) == seq![body@.subrange(i as int, j as int)]);
            }
        }
        if !ok {
            assert(pieces[done.len() as int] == body@.subrange(i as int, j as int));
            assert(!status_item(trim(pieces[done.len() as int])));
            return false;
        }
        proof {
            done = done.push(body@.subrange(i as int, j as int));
        }
        if j >= body.len() {
            assert(pieces =~= done);
            assert forall|k: int| 0 <= k < pieces.len() implies status_item(
                trim(#[trigger] pieces[k]),
            ) by {
                assert(pieces[k] == done[k]);
            }
            return true;
        }
        assert(done + split_from(body@, COMMA, j + 1) =~= pieces);
        i = j + 1;
    }
}

pub fn bare_summary_bytes(line: &[u8]) -> (r: bool)
    ensures
        r == bare_summary_line(line@),
{
    let (a, e) = whole(line);
    let s = &line[a..e];
    if s.len() == 0 {
        return false;
    }
    let ntr = "no tests ran".as_bytes();
    let sep = " in ".as_bytes();
    if starts_with_exec(s, ntr) {
        let rest = &s[ntr.len()..s.len()];
        assert(rest@ =~= s@.skip(ntr@.len() as int));
        if !starts_with_exec(rest, sep) {
            return false;
        }
        let (x, y) = trim_range(rest, sep.len(), rest.len());
        assert(rest@.subrange(sep@.len() as int, rest@.len() as int) =~= rest@.skip(
            sep@.len() as int,
        ));
        return duration_range(rest, x, y);
    }
    if !(48 <= s[0] && s[0] <= 57) {
        return false;
    }
    match rfind_exec(s, sep) {
        None => false,
        Some(p) => {
            proof {
                lemma_rfind_bounds(s@, sep@, s@.len() - sep@.len());
            }
            let (x, y) = trim_range(s, p + sep.len(), s.len());
            assert(s@.subrange(p + sep@.len(), s@.len() as int) =~= s@.skip(p + sep@.len()));
            if !duration_range(s, x, y) {
                return false;
            }
            let (u, v) = trim_range(s, 0, p);
            assert(s@.subrange(0, p as int) =~= s@.take(p as int));
            status_list_range(s, u, v)
        },
    }
}

/// A found occurrence lies within the sequence.
proof fn lemma_rfind_bounds(s: Seq<u8>, p: Seq<u8>, i: int)
    ensures
        crate::text::rfind_upto(s, p, i) matches Some(k) ==> 0 <= k && k + p.len() <= s.len(),
    decreases i + 1,
{
    if i >= 0 && !crate::text::occurs_at(s, p, i) {
        lemma_rfind_bounds(s, p, i - 1);
    }
}

pub fn major_header_bytes(line: &[u8]) -> (r: bool)
    ensures
        r == major_header_line(line@),
{
    let (a, e) = whole(line);
    let t = &line[a..e];
    t.len() >= 5 && starts_with_exec(t, "===".as_bytes()) && ends_with_exec(t, "===".as_bytes())
}

/// The `[start, end)` range of the interior text of a bordered line.
pub fn header_title_range(line: &[u8]) -> (r: (usize, usize))
    ensures
        r.0 <= r.1 <= line.len(),
        line@.subrange(r.0 as int, r.1 as int) == header_title(line@),
{
    let (a, e) = whole(line);
    let (x, y) = trim_byte_range(line, a, e, EQUALS);
    trim_range(line, x, y)
}

pub fn contains_ci_bytes(title: &[u8], needle: &[u8]) -> (r: bool)
    ensures
        r == contains_ci(title@, needle@),
{
    let t = ascii_lowercase(title);
    let n = ascii_lowercase(needle);
    contains_exec(&t, &n)
}

pub fn verbosity_flag_bytes(s: &[u8]) -> (r: bool)
    ensures
        r == verbosity_flag(s@),
{
    if s.len() < 2 || s[0] != DASH {
        return false;
    }
    let mut k: usize = 1;
    while k < s.len()
        invariant
            1 <= k <= s.len(),
            forall|m: int| 1 <= m < k ==> #[trigger] s@[m] == LETTER_V,
        decreases s.len() - k,
    {
        if s[k] != LETTER_V {
            return false;
        }
        k = k + 1;
    }
    true
}

fn machine_readable_bytes(a: &[u8]) -> (r: bool)
    ensures
        r == machine_readable_arg(a@),
{
    bytes_eq(a, "--collect-only".as_bytes()) || bytes_eq(a, "--co".as_bytes()) || bytes_eq(
        a,
        "--verbose".as_bytes(),
    ) || verbosity_flag_bytes(a) || starts_with_exec(a, "--json-report".as_bytes())
        || starts_with_exec(a, "--junitxml".as_bytes()) || starts_with_exec(
        a,
        "--junit-xml".as_bytes(),
    )
}

/// Whether any argument signals machine-oriented output.
pub fn has_machine_readable_arg(args: &Vec<String>) -> (r: bool)
    ensures
        r == machine_readable_requested(args@),
{
    let mut i: usize = 0;
    while i < args.len()
        invariant
            i <= args.len(),
            forall|k: int| 0 <= k < i ==> !machine_readable_arg(string_bytes(#[trigger] args@[k])),
        decreases args.len() - i,
    {
        if machine_readable_bytes(args[i].as_str().as_bytes()) {
            return true;
        }
        i = i + 1;
    }
    false
}


// ── section scan ────────────────────────────────────────────────────────────

/// The section the scan is in.
#[derive(Debug, Clone, Copy, PartialEq, Eq, Structural)]
pub enum Section {
    /// Before any recognised section (header, progress dots, PASSED lines).
    Preamble,
    InFailures,
    InErrors,
    InShortSummary,
    /// Inside the `warnings summary` section; content lines are capped.
    InWarnings,
}

/// What the scan has collected, as indices of lines.
pub struct Scan {
    pub section: Section,
    pub failures: Seq<usize>,
    pub errors: Seq<usize>,
    pub short_summary: Seq<usize>,
    pub warnings_header: Option<usize>,
    pub warnings_content: Seq<usize>,
    pub warnings_total: nat,
    pub preamble_errors: Seq<usize>,
    pub final_summary: Option<usize>,
}

pub open spec fn initial_scan() -> Scan {
    Scan {
        section: Section::Preamble,
        failures: seq![],
        errors: seq![],
        short_summary: seq![],
        warnings_header: None,
        warnings_content: seq![],
        warnings_total: 0,
        preamble_errors: seq![],
        final_summary: None,
    }
}

/// The scan after line `i`, whose bytes are `line`.
pub open spec fn scan_step(s: Scan, line: Seq<u8>, i: usize) -> Scan {
    if final_summary_line(line) {
        Scan { final_summary: Some(i), section: Section::Preamble, ..s }
    } else if major_header_line(line) {
        let title = header_title(line);
        if contains_ci(title, lit("FAILURES")) {
            Scan { section: Section::InFailures, failures: s.failures.push(i), ..s }
        } else if contains_ci(title, lit("ERRORS")) {
            Scan { section: Section::InErrors, errors: s.errors.push(i), ..s }
        } else if contains_ci(title, lit("short test summary")) {
            Scan { section: Section::InShortSummary, short_summary: s.short_summary.push(i), ..s }
        } else if contains_ci(title, lit("warnings summary")) {
            Scan { section: Section::InWarnings, warnings_header: Some(i), ..s }
        } else {
            Scan { section: Section::Preamble, ..s }
        }
    } else {
        match s.section {
            Section::Preamble => if starts_with(line, lit("ERROR ")) {
                Scan { preamble_errors: s.preamble_errors.push(i), ..s }
            } else {
                s
            },
            Section::InFailures => Scan { failures: s.failures.push(i), ..s },
            Section::InErrors => Scan { errors: s.errors.push(i), ..s },
            Section::InShortSummary => Scan { short_summary: s.short_summary.push(i), ..s },
            Section::InWarnings => if starts_with(line, lit("-- Docs:")) {
                s
            } else {
                Scan {
                    warnings_total: s.warnings_total + 1,
                    warnings_content: if s.warnings_content.len() < MAX_WARNING_LINES {
                        s.warnings_content.push(i)
                    } else {
                        s.warnings_content
                    },
                    ..s
                }
            },
        }
    }
}

/// The scan after the first `n` lines.
pub open spec fn pytest_scan(ls: Seq<Seq<u8>>, n: int) -> Scan
    decreases n,
{
    if n <= 0 {
        initial_scan()
    } else {
        scan_step(pytest_scan(ls, n - 1), ls[n - 1], (n - 1) as usize)
    }
}

pub open spec fn indices_below(idx: Seq<usize>, n: int) -> bool {
    forall|k: int| 0 <= k < idx.len() ==> #[trigger] idx[k] < n
}

/// Every collected index is below `n`.
pub open spec fn scan_bounded(s: Scan, n: int) -> bool {
    &&& indices_below(s.failures, n)
    &&& indices_below(s.errors, n)
    &&& indices_below(s.short_summary, n)
    &&& indices_below(s.warnings_content, n)
    &&& indices_below(s.preamble_errors, n)
    &&& (s.warnings_header matches Some(h) ==> h < n)
    &&& (s.final_summary matches Some(f) ==> f < n)
    &&& s.warnings_content.len() <= s.warnings_total <= n
}

/// The lines at the given indices.
pub open spec fn lines_at(ls: Seq<Seq<u8>>, idx: Seq<usize>) -> Seq<Seq<u8>> {
    idx.map_values(|k: usize| ls[k as int])
}

/// The warnings section: header, at most five entries, and the count of the
/// entries left out.
pub open spec fn warnings_part(ls: Seq<Seq<u8>>, s: Scan) -> Seq<u8> {
    let shown = join_lines(seq![ls[s.warnings_header.unwrap() as int]] + lines_at(
        ls,
        s.warnings_content,
    ));
    if s.warnings_total > s.warnings_content.len() {
        shown + lit("\n  ... (") + decimal((s.warnings_total - s.warnings_content.len()) as nat)
            + lit(" warnings omitted)")
    } else {
        shown
    }
}

pub open spec fn optional_part(present: bool, part: Seq<u8>) -> Seq<Seq<u8>> {
    if present {
        seq![part]
    } else {
        seq![]
    }
}

/// The parts of the summary view, in order.
pub open spec fn summary_parts(ls: Seq<Seq<u8>>, s: Scan) -> Seq<Seq<u8>> {
    optional_part(
        s.errors.len() == 0 && s.preamble_errors.len() > 0,
        join_lines(lines_at(ls, s.preamble_errors)),
    ) + optional_part(s.failures.len() > 0, join_lines(lines_at(ls, s.failures)))
        + optional_part(s.errors.len() > 0, join_lines(lines_at(ls, s.errors))) + optional_part(
        s.short_summary.len() > 0,
        join_lines(lines_at(ls, s.short_summary)),
    ) + optional_part(s.warnings_header is Some, warnings_part(ls, s)) + seq![
        ls[s.final_summary.unwrap() as int],
    ]
}

/// The reduced body of pytest stdout, or `None` without a final summary line.
#[verifier::opaque]
pub open spec fn pytest_candidate(text: Seq<u8>) -> Option<Seq<u8>> {
    let ls = lines(text);
    let s = pytest_scan(ls, ls.len() as int);
    if s.final_summary is None {
        None
    } else {
        Some(join_lines(summary_parts(ls, s)) + seq![NEWLINE])
    }
}

/// The scan of the executable parser.
pub struct ScanState {
    pub section: Section,
    pub failures: Vec<usize>,
    pub errors: Vec<usize>,
    pub short_summary: Vec<usize>,
    pub warnings_header: Option<usize>,
    pub warnings_content: Vec<usize>,
    pub warnings_total: usize,
    pub preamble_errors: Vec<usize>,
    pub final_summary: Option<usize>,
}

impl View for ScanState {
    type V = Scan;

    open spec fn view(&self) -> Scan {
        Scan {
            section: self.section,
            failures: self.failures@,
            errors: self.errors@,
            short_summary: self.short_summary@,
            warnings_header: self.warnings_header,
            warnings_content: self.warnings_content@,
            warnings_total: self.warnings_total as nat,
            preamble_errors: self.preamble_errors@,
            final_summary: self.final_summary,
        }
    }
}

fn scan_line(st: &mut ScanState, line: &[u8], i: usize)
    requires
        scan_bounded(old(st)@, i as int),
        i < usize::MAX,
    ensures
        final(st)@ == scan_step(old(st)@, line@, i),
        scan_bounded(final(st)@, i + 1),
{
    if final_summary_bytes(line) {
        st.final_summary = Some(i);
        st.section = Section::Preamble;
    } else if major_header_bytes(line) {
        let (a, b) = header_title_range(line);
        let title = &line[a..b];
        if contains_ci_bytes(title, "FAILURES".as_bytes()) {
            st.section = Section::InFailures;
            st.failures.push(i);
        } else if contains_ci_bytes(title, "ERRORS".as_bytes()) {
            st.section = Section::InErrors;
            st.errors.push(i);
        } else if contains_ci_bytes(title, "short test summary".as_bytes()) {
            st.section = Section::InShortSummary;
            st.short_summary.push(i);
        } else if contains_ci_bytes(title, "warnings summary".as_bytes()) {
            st.section = Section::InWarnings;
            st.warnings_header = Some(i);
        } else {
            st.section = Section::Preamble;
        }
    } else {
        match st.section {
            Section::Preamble => {
                if starts_with_exec(line, "ERROR ".as_bytes()) {
                    st.preamble_errors.push(i);
                }
            },
            Section::InFailures => st.failures.push(i),
            Section::InErrors => st.errors.push(i),
            Section::InShortSummary => st.short_summary.push(i),
            Section::InWarnings => {
                if !starts_with_exec(line, "-- Docs:".as_bytes()) {
                    st.warnings_total = st.warnings_total + 1;
                    if st.warnings_content.len() < MAX_WARNING_LINES {
                        st.warnings_content.push(i);
                    }
                }
            },
        }
    }
}

/// The lines at `idx`, joined with `\n`.
fn join_indexed(text: &[u8], rs: &Vec<(usize, usize)>, idx: &Vec<usize>) -> (r: Vec<u8>)
    requires
        ranges_within(text@, rs@),
        indices_below(idx@, rs@.len() as int),
    ensures
        r@ == join_lines(lines_at(ranges_of(text@, rs@), idx@)),
{
    let ghost ls = ranges_of(text@, rs@);
    let mut out: Vec<u8> = Vec::new();
    let mut k: usize = 0;
    while k < idx.len()
        invariant
            k <= idx@.len(),
            ranges_within(text@, rs@),
            indices_below(idx@, rs@.len() as int),
            ls == ranges_of(text@, rs@),
            out@ == join_lines(lines_at(ls, idx@.take(k as int))),
        decreases idx.len() - k,
    {
        let j = idx[k];
        assert(j < rs@.len());
        let (a, b) = rs[j];
        assert(rs@[j as int].0 <= rs@[j as int].1 <= text@.len());
        let line = &text[a..b];
        proof {
            lemma_join_push(lines_at(ls, idx@.take(k as int)), ls[j as int]);
            assert(lines_at(ls, idx@.take(k + 1)) =~= lines_at(ls, idx@.take(k as int)).push(
                ls[j as int],
            ));
        }
        push_line(&mut out, k == 0, line);
        k = k + 1;
    }
    assert(idx@.take(idx@.len() as int) =~= idx@);
    out
}

/// Appends `part` as the next part of a `\n`-joined text.
fn push_part(out: &mut Vec<u8>, first: bool, part: &[u8], Ghost(done): Ghost<Seq<Seq<u8>>>)
    requires
        old(out)@ == join_lines(done),
        first == (done.len() == 0),
    ensures
        final(out)@ == join_lines(done.push(part@)),
{
    proof {
        lemma_join_push(done, part@);
    }
    push_line(out, first, part);
}

/// Try to extract the useful sections from pytest stdout.
///
/// Returns `Some(candidate)` on success, `None` to signal ParseFailed.
pub fn parse_and_reduce(text: &[u8]) -> (r: Option<Vec<u8>>)
    ensures
        match pytest_candidate(text@) {
            Some(c) => r matches Some(v) && v@ == c,
            None => r is None,
        },
{
    reveal(pytest_candidate);
    let rs = line_ranges(text);
    let st = scan_all(text, &rs);
    match st.final_summary {
        None => None,
        Some(fi) => Some(assemble(text, &rs, &st, fi)),
    }
}

/// Runs the section scan over every line.
fn scan_all(text: &[u8], rs: &Vec<(usize, usize)>) -> (st: ScanState)
    requires
        ranges_within(text@, rs@),
    ensures
        st@ == pytest_scan(ranges_of(text@, rs@), rs@.len() as int),
        scan_bounded(st@, rs@.len() as int),
{
    let ghost ls = ranges_of(text@, rs@);
    let mut st = ScanState {
        section: Section::Preamble,
        failures: Vec::new(),
        errors: Vec::new(),
        short_summary: Vec::new(),
        warnings_header: None,
        warnings_content: Vec::new(),
        warnings_total: 0,
        preamble_errors: Vec::new(),
        final_summary: None,
    };
    assert(st@ == initial_scan());
    let mut k: usize = 0;
    while k < rs.len()
        invariant
            k <= rs@.len(),
            ranges_within(text@, rs@),
            ls == ranges_of(text@, rs@),
            st@ == pytest_scan(ls, k as int),
            scan_bounded(st@, k as int),
        decreases rs.len() - k,
    {
        let (a, b) = rs[k];
        assert(rs@[k as int].0 <= rs@[k as int].1 <= text@.len());
        let line = &text[a..b];
        scan_line(&mut st, line, k);
        k = k + 1;
    }
    st
}

/// Joins the collected parts and the final summary line.
#[verifier::rlimit(30)]
fn assemble(text: &[u8], rs: &Vec<(usize, usize)>, st: &ScanState, fi: usize) -> (r: Vec<u8>)
    requires
        ranges_within(text@, rs@),
        scan_bounded(st@, rs@.len() as int),
        st.final_summary == Some(fi),
    ensures
        r@ == join_lines(summary_parts(ranges_of(text@, rs@), st@)) + seq![NEWLINE],
{
    let ghost ls = ranges_of(text@, rs@);
    let ghost s = st@;
    let mut out: Vec<u8> = Vec::new();
    let mut n: usize = 0;
    let ghost mut done: Seq<Seq<u8>> = seq![];
    if st.errors.len() == 0 && st.preamble_errors.len() > 0 {
        let p = join_indexed(text, rs, &st.preamble_errors);
        push_part(&mut out, n == 0, &p, Ghost(done));
        proof {
            done = done.push(p@);
        }
        n = n + 1;
    }
    assert(done =~= optional_part(
        s.errors.len() == 0 && s.preamble_errors.len() > 0,
        join_lines(lines_at(ls, s.preamble_errors)),
    ));
    let ghost d1 = done;
    if st.failures.len() > 0 {
        let p = join_indexed(text, rs, &st.failures);
        push_part(&mut out, n == 0, &p, Ghost(done));
        proof {
            done = done.push(p@);
        }
        n = n + 1;
    }
    assert(done =~= d1 + optional_part(s.failures.len() > 0, join_lines(lines_at(ls, s.failures))));
    let ghost d2 = done;
    if st.errors.len() > 0 {
        let p = join_indexed(text, rs, &st.errors);
        push_part(&mut out, n == 0, &p, Ghost(done));
        proof {
            done = done.push(p@);
        }
        n = n + 1;
    }
    assert(done =~= d2 + optional_part(s.errors.len() > 0, join_lines(lines_at(ls, s.errors))));
    let ghost d3 = done;
    if st.short_summary.len() > 0 {
        let p = join_indexed(text, rs, &st.short_summary);
        push_part(&mut out, n == 0, &p, Ghost(done));
        proof {
            done = done.push(p@);
        }
        n = n + 1;
    }
    assert(done =~= d3 + optional_part(
        s.short_summary.len() > 0,
        join_lines(lines_at(ls, s.short_summary)),
    ));
    let ghost d4 = done;
    if let Some(h) = st.warnings_header {
        let p = warnings_text(text, rs, h, &st.warnings_content, st.warnings_total, Ghost(s));
        push_part(&mut out, n == 0, &p, Ghost(done));
        proof {
            done = done.push(p@);
        }
        n = n + 1;
    }
    assert(done =~= d4 + optional_part(s.warnings_header is Some, warnings_part(ls, s)));
    let (a, b) = rs[fi];
    assert(rs@[fi as int].0 <= rs@[fi as int].1 <= text@.len());
    let summary = &text[a..b];
    push_part(&mut out, n == 0, summary, Ghost(done));
    proof {
        done = done.push(summary@);
    }
    assert(done =~= summary_parts(ls, s));
    out.push(NEWLINE);
    out
}

/// The warnings part: header, the kept entries, and the omitted count.
fn warnings_text(
    text: &[u8],
    rs: &Vec<(usize, usize)>,
    header: usize,
    content: &Vec<usize>,
    total: usize,
    Ghost(s): Ghost<Scan>,
) -> (r: Vec<u8>)
    requires
        ranges_within(text@, rs@),
        scan_bounded(s, rs@.len() as int),
        s.warnings_header == Some(header),
        s.warnings_content == content@,
        s.warnings_total == total,
    ensures
        r@ == warnings_part(ranges_of(text@, rs@), s),
{
    let ghost ls = ranges_of(text@, rs@);
    let mut idx: Vec<usize> = Vec::new();
    idx.push(header);
    let mut k: usize = 0;
    while k < content.len()
        invariant
            k <= content@.len(),
            header < rs@.len(),
            indices_below(content@, rs@.len() as int),
            idx@ == seq![header] + content@.take(k as int),
        decreases content.len() - k,
    {
        idx.push(content[k]);
        assert(content@.take(k + 1) =~= content@.take(k as int).push(content@[k as int]));
        k = k + 1;
    }
    assert(content@.take(content@.len() as int) =~= content@);
    assert(indices_below(idx@, rs@.len() as int)) by {
        assert forall|m: int| 0 <= m < idx@.len() implies #[trigger] idx@[m] < rs@.len() by {
            if m > 0 {
                assert(idx@[m] == content@[m - 1]);
            }
        }
    }
    let mut out = join_indexed(text, rs, &idx);
    assert(lines_at(ls, idx@) =~= seq![ls[header as int]] + lines_at(ls, content@));
    if total > content.len() {
        push_str(&mut out, "\n  ... (");
        push_decimal(&mut out, (total - content.len()) as u64);
        push_str(&mut out, " warnings omitted)");
    }
    out
}

// ── the reducer ─────────────────────────────────────────────────────────────

#[derive(Debug, Clone, Copy)]
pub struct PytestReducer;

/// What the pytest reducer makes of `input` in `ctx`.
pub open spec fn pytest_reduction(input: Seq<u8>, ctx: ChannelContext) -> Outcome {
    if ctx.channel != Channel::Stdout {
        skipped_outcome(SkipReason::ParseFailed)
    } else if input.len() == 0 {
        skipped_outcome(SkipReason::Empty)
    } else if !vstd::utf8::valid_utf8(input) {
        skipped_outcome(SkipReason::NonUtf8)
    } else if machine_readable_requested(ctx.command.args@) {
        skipped_outcome(SkipReason::MachineReadable)
    } else {
        match pytest_candidate(input) {
            Some(c) => summary_outcome(c, ViewKind::PytestSummary),
            None => skipped_outcome(SkipReason::ParseFailed),
        }
    }
}

/// `Some(MachineReadable)` when the arguments signal machine-oriented output.
pub fn check_gate(ctx: &ChannelContext) -> (r: Option<SkipReason>)
    ensures
        r == if machine_readable_requested(ctx.command.args@) {
            Some(SkipReason::MachineReadable)
        } else {
            None::<SkipReason>
        },
{
    if has_machine_readable_arg(&ctx.command.args) {
        Some(SkipReason::MachineReadable)
    } else {
        None
    }
}

impl Reducer for PytestReducer {
    open spec fn handles(&self, norm: NormalizedCommand) -> bool {
        norm is Pytest
    }

    open spec fn reduction(&self, input: Seq<u8>, ctx: ChannelContext) -> Outcome {
        pytest_reduction(input, ctx)
    }

    open spec fn label(&self) -> Seq<char> {
        "pytest"@
    }

    fn name(&self) -> (r: &'static str) {
        "pytest"
    }

    fn matches(&self, norm: &NormalizedCommand) -> (r: bool) {
        match norm {
            NormalizedCommand::Pytest { .. } => true,
            _ => false,
        }
    }

    fn reduce(&self, input: &[u8], ctx: &ChannelContext) -> (r: ReduceOutcome) {
        // Only specialise stdout; let stderr fall through to generic/raw.
        if ctx.channel != Channel::Stdout {
            return ReduceOutcome::skipped(SkipReason::ParseFailed);
        }
        if input.len() == 0 {
            return ReduceOutcome::skipped(SkipReason::Empty);
        }
        if !is_valid_utf8(input) {
            return ReduceOutcome::skipped(SkipReason::NonUtf8);
        }
        if let Some(reason) = check_gate(ctx) {
            return ReduceOutcome::skipped(reason);
        }
        match parse_and_reduce(input) {
            Some(candidate) => ReduceOutcome {
                display: candidate,
                applied: true,
                view: ViewKind::PytestSummary,
                reduction: ReductionKind::SemanticSummary,
                recoverability: Recoverability::Retrievable,
                skip_reason: None,
            },
            None => ReduceOutcome::skipped(SkipReason::ParseFailed),
        }
    }
}

/// The scan's final summary is the last line among the first `n` that is a
/// final summary line.
proof fn lemma_scan_final_summary(ls: Seq<Seq<u8>>, n: int)
    requires
        0 <= n <= ls.len(),
        ls.len() <= usize::MAX,
    ensures
        pytest_scan(ls, n).final_summary is None <==> forall|k: int|
            0 <= k < n ==> !final_summary_line(#[trigger] ls[k]),
        pytest_scan(ls, n).final_summary matches Some(f) ==> {
            &&& f < n
            &&& final_summary_line(ls[f as int])
            &&& forall|k: int| f < k < n ==> !final_summary_line(#[trigger] ls[k])
        },
    decreases n,
{
    if n > 0 {
        lemma_scan_final_summary(ls, n - 1);
    }
}

/// `join_lines` ends with its last line.
proof fn lemma_join_ends_with_last(ps: Seq<Seq<u8>>)
    requires
        ps.len() > 0,
    ensures
        ends_with(join_lines(ps), ps.last()),
{
    let j = join_lines(ps);
    if ps.len() == 1 {
        assert(j.subrange(j.len() - ps.last().len(), j.len() as int) =~= ps.last());
    } else {
        let pre = join_lines(ps.drop_last()) + seq![NEWLINE];
        assert(j == pre + ps.last());
        assert(j.subrange(j.len() - ps.last().len(), j.len() as int) =~= ps.last());
    }
}

/// The pytest summary exists exactly when the output has a final summary
/// line (`=== 3 passed in 0.12s ===` or its bare form), and then it ends with
/// the last such line of the output and a line break.
pub proof fn law_pytest_summary_ends_with_final_line(text: Seq<u8>)
    requires
        lines(text).len() <= usize::MAX,
    ensures
        pytest_candidate(text) is Some <==> exists|k: int|
            0 <= k < lines(text).len() && final_summary_line(#[trigger] lines(text)[k]),
        pytest_candidate(text) matches Some(c) ==> exists|f: int|
            0 <= f < lines(text).len() && final_summary_line(#[trigger] lines(text)[f]) && (forall|
                k: int,
            | f < k < lines(text).len() ==> !final_summary_line(#[trigger] lines(text)[k]))
                && ends_with(c, lines(text)[f] + seq![NEWLINE]),
{
    reveal(pytest_candidate);
    let ls = lines(text);
    let n = ls.len() as int;
    lemma_scan_final_summary(ls, n);
    let sc = pytest_scan(ls, n);
    if let Some(f) = sc.final_summary {
        let ps = summary_parts(ls, sc);
        assert(ps.last() == ls[f as int]);
        lemma_join_ends_with_last(ps);
        let c = join_lines(ps) + seq![NEWLINE];
        let tail = ls[f as int] + seq![NEWLINE];
        assert(c.subrange(c.len() - tail.len(), c.len() as int) =~= tail) by {
            let j = join_lines(ps);
            assert(j.subrange(j.len() - ls[f as int].len(), j.len() as int) =~= ls[f as int]);
            assert forall|k: int| 0 <= k < tail.len() implies c[c.len() - tail.len() + k] == tail[k] by {
                if k < ls[f as int].len() {
                    assert(c[c.len() - tail.len() + k] == j[j.len() - ls[f as int].len() + k]);
                }
            }
        }
        assert(final_summary_line(ls[f as int]));
    } else {
        if exists|k: int| 0 <= k < n && final_summary_line(#[trigger] ls[k]) {
            let k = choose|k: int| 0 <= k < n && final_summary_line(#[trigger] ls[k]);
            assert(!final_summary_line(ls[k]));
        }
    }
}

/// A word that starts and ends with a lower-case ASCII letter is its own trim.
proof fn lemma_trim_word(w: Seq<u8>)
    requires
        w.len() > 0,
        97 <= w[0] <= 122,
        97 <= w.last() <= 122,
    ensures
        trim(w) == w,
{
    assert(crate::text::leading_space_len(w) == 0);
    assert(crate::text::trim_start(w) == w);
    assert(crate::text::trailing_space_len(w) == 0);
}

/// `N word`, a count in decimal and a word, is a status item exactly when
/// the word is a status word.
pub proof fn law_counted_status_item(n: nat, w: Seq<u8>)
    requires
        n <= u64::MAX,
        w.len() > 0,
        97 <= w[0] <= 122,
        97 <= w.last() <= 122,
    ensures
        status_item(decimal(n) + seq![SPACE] + w) == status_word(w),
{
    let d = decimal(n);
    crate::text::lemma_decimal_digits(n);
    let p = d + seq![SPACE] + w;
    crate::text::lemma_next_index_of_bounds(p, SPACE, 0);
    let sp = next_index_of(p, SPACE, 0);
    assert(p[d.len() as int] == SPACE);
    assert(sp == d.len()) by {
        if sp < d.len() {
            assert(p[sp] == d[sp]);
            assert(is_ascii_digit(d[sp]));
        }
        if sp > d.len() {
            assert(p[d.len() as int] != SPACE);
        }
    }
    assert(p.take(sp) =~= d);
    assert(p.skip(sp + 1) =~= w);
    assert(is_ascii_digit(d[0]));
    assert(d[0] != 43);
    assert(parses_as_u64(d));
    lemma_trim_word(w);
}

/// Each pytest result word, `warning` and `warnings` among them, counts as a
/// status item after any count: `3 passed`, `1 warning`, `0 deselected`.
pub proof fn law_status_words_with_any_count(n: nat)
    requires
        n <= u64::MAX,
    ensures
        status_item(decimal(n) + seq![SPACE] + lit("passed")),
        status_item(decimal(n) + seq![SPACE] + lit("failed")),
        status_item(decimal(n) + seq![SPACE] + lit("error")),
        status_item(decimal(n) + seq![SPACE] + lit("errors")),
        status_item(decimal(n) + seq![SPACE] + lit("skipped")),
        status_item(decimal(n) + seq![SPACE] + lit("xfailed")),
        status_item(decimal(n) + seq![SPACE] + lit("xpassed")),
        status_item(decimal(n) + seq![SPACE] + lit("warning")),
        status_item(decimal(n) + seq![SPACE] + lit("warnings")),
        status_item(decimal(n) + seq![SPACE] + lit("deselected")),
{
    reveal_strlit("passed");
    reveal_strlit("failed");
    reveal_strlit("error");
    reveal_strlit("errors");
    reveal_strlit("skipped");
    reveal_strlit("xfailed");
    reveal_strlit("xpassed");
    reveal_strlit("warning");
    reveal_strlit("warnings");
    reveal_strlit("deselected");
    vstd::string::is_ascii_spec_bytes("passed");
    vstd::string::is_ascii_spec_bytes("failed");
    vstd::string::is_ascii_spec_bytes("error");
    vstd::string::is_ascii_spec_bytes("errors");
    vstd::string::is_ascii_spec_bytes("skipped");
    vstd::string::is_ascii_spec_bytes("xfailed");
    vstd::string::is_ascii_spec_bytes("xpassed");
    vstd::string::is_ascii_spec_bytes("warning");
    vstd::string::is_ascii_spec_bytes("warnings");
    vstd::string::is_ascii_spec_bytes("deselected");
    law_counted_status_item(n, lit("passed"));
    law_counted_status_item(n, lit("failed"));
    law_counted_status_item(n, lit("error"));
    law_counted_status_item(n, lit("errors"));
    law_counted_status_item(n, lit("skipped"));
    law_counted_status_item(n, lit("xfailed"));
    law_counted_status_item(n, lit("xpassed"));
    law_counted_status_item(n, lit("warning"));
    law_counted_status_item(n, lit("warnings"));
    law_counted_status_item(n, lit("deselected"));
}

/// A `=== ... ===` header that opens an errors section: its title names
/// `ERRORS` (in any case) and not `FAILURES`, and it is no final summary.
pub open spec fn opens_errors_section(l: Seq<u8>) -> bool {
    &&& major_header_line(l)
    &&& !final_summary_line(l)
    &&& contains_ci(header_title(l), lit("ERRORS"))
    &&& !contains_ci(header_title(l), lit("FAILURES"))
}

/// A line that ends any section: another `===` header or a final summary.
pub open spec fn ends_section(l: Seq<u8>) -> bool {
    major_header_line(l) || final_summary_line(l)
}

/// A step of the scan keeps the collected error lines, or adds line `i`.
proof fn lemma_step_errors(s: Scan, line: Seq<u8>, i: usize)
    ensures
        scan_step(s, line, i).errors == s.errors || scan_step(s, line, i).errors == s.errors.push(i),
{
}

/// The error lines collected after `m` lines begin those collected after `n >= m`.
proof fn lemma_errors_grow(ls: Seq<Seq<u8>>, m: int, n: int)
    requires
        0 <= m <= n <= ls.len(),
    ensures
        pytest_scan(ls, m).errors.len() <= pytest_scan(ls, n).errors.len(),
        forall|k: int|
            0 <= k < pytest_scan(ls, m).errors.len() ==> #[trigger] pytest_scan(ls, n).errors[k]
                == pytest_scan(ls, m).errors[k],
    decreases n - m,
{
    if m < n {
        lemma_errors_grow(ls, m, n - 1);
        lemma_step_errors(pytest_scan(ls, n - 1), ls[n - 1], (n - 1) as usize);
    }
}

/// Inside an errors section opened at `h`, the scan is in the errors section
/// and the last lines it collected are `h`, `h + 1`, ..., `n - 1`.
proof fn lemma_errors_section(ls: Seq<Seq<u8>>, h: int, n: int)
    requires
        ls.len() <= usize::MAX,
        0 <= h < n <= ls.len(),
        opens_errors_section(ls[h]),
        forall|m: int| h < m < n ==> !ends_section(#[trigger] ls[m]),
    ensures
        pytest_scan(ls, n).section == Section::InErrors,
        pytest_scan(ls, n).errors.len() >= n - h,
        forall|t: int|
            0 <= t < n - h ==> #[trigger] pytest_scan(ls, n).errors[pytest_scan(ls, n).errors.len()
                - (n - h) + t] == h + t,
    decreases n - h,
{
    let prev = pytest_scan(ls, n - 1);
    let cur = pytest_scan(ls, n);
    if n > h + 1 {
        lemma_errors_section(ls, h, n - 1);
        assert(!ends_section(ls[n - 1]));
        assert(cur.errors == prev.errors.push((n - 1) as usize));
        assert forall|t: int| 0 <= t < n - h implies #[trigger] cur.errors[cur.errors.len() - (n - h)
            + t] == h + t by {
            if t < n - h - 1 {
                assert(cur.errors[cur.errors.len() - (n - h) + t] == prev.errors[prev.errors.len() - (
                n - 1 - h) + t]);
            }
        }
    } else {
        assert(cur.errors == prev.errors.push(h as usize));
    }
}

/// Every run of lines of a pytest errors section (the `ERRORS` header and the
/// lines after it, up to the next `===` header or final summary) appears
/// whole and in order in the pytest summary view.
pub proof fn law_pytest_summary_keeps_errors_sections(text: Seq<u8>, h: int, e: int)
    requires
        lines(text).len() <= usize::MAX,
        0 <= h < e <= lines(text).len(),
        opens_errors_section(lines(text)[h]),
        forall|m: int| h < m < e ==> !ends_section(#[trigger] lines(text)[m]),
    ensures
        pytest_candidate(text) matches Some(c) ==> contains(c, join_lines(lines(text).subrange(h, e))),
{
    reveal(pytest_candidate);
    let ls = lines(text);
    let n = ls.len() as int;
    let sc = pytest_scan(ls, n);
    if sc.final_summary is Some {
        lemma_errors_section(ls, h, e);
        lemma_errors_grow(ls, e, n);
        let se = pytest_scan(ls, e).errors;
        let p = se.len() - (e - h);
        let errs = lines_at(ls, sc.errors);
        assert(errs.subrange(p, p + (e - h)) =~= ls.subrange(h, e)) by {
            assert forall|t: int| 0 <= t < e - h implies #[trigger] errs.subrange(p, p + (e - h))[t]
                == ls.subrange(h, e)[t] by {
                assert(se[p + t] == h + t);
                assert(sc.errors[p + t] == se[p + t]);
            }
        }
        crate::text::lemma_join_contains_run(errs, p, p + (e - h));
        let part = join_lines(errs);
        let parts = summary_parts(ls, sc);
        let pre = optional_part(
            sc.errors.len() == 0 && sc.preamble_errors.len() > 0,
            join_lines(lines_at(ls, sc.preamble_errors)),
        ) + optional_part(sc.failures.len() > 0, join_lines(lines_at(ls, sc.failures)));
        let post = optional_part(sc.short_summary.len() > 0, join_lines(lines_at(ls, sc.short_summary)))
            + optional_part(sc.warnings_header is Some, warnings_part(ls, sc)) + seq![
            ls[sc.final_summary.unwrap() as int],
        ];
        assert(sc.errors.len() > 0);
        assert(parts =~= pre + seq![part] + post);
        let idx = pre.len() as int;
        assert(parts.subrange(idx, idx + 1) =~= seq![part]);
        crate::text::lemma_join_contains_run(parts, idx, idx + 1);
        assert(join_lines(seq![part]) == part);
        let c = join_lines(parts) + seq![NEWLINE];
        crate::text::lemma_contains_middle(seq![], join_lines(parts), seq![NEWLINE]);
        assert(Seq::<u8>::empty() + join_lines(parts) + seq![NEWLINE] =~= c);
        crate::text::lemma_contains_trans(c, join_lines(parts), part);
        crate::text::lemma_contains_trans(c, part, join_lines(ls.subrange(h, e)));
    }
}

/// The last occurrence of `p` in `s` is at `q` when it occurs there and at
/// no later start.
proof fn lemma_rfind_is(s: Seq<u8>, p: Seq<u8>, q: int, i: int)
    requires
        0 <= q <= i,
        occurs_at(s, p, q),
        forall|k: int| q < k <= i ==> !occurs_at(s, p, k),
    ensures
        crate::text::rfind_upto(s, p, i) == Some(q),
    decreases i - q,
{
    if i > q {
        lemma_rfind_is(s, p, q, i - 1);
    }
}

/// A run that starts with a digit and ends with `s` or a lower-case letter
/// is its own trim.
proof fn lemma_trim_plain(t: Seq<u8>)
    requires
        t.len() > 0,
        is_ascii_digit(t[0]) || 97 <= t[0] <= 122,
        is_ascii_digit(t.last()) || 97 <= t.last() <= 122,
    ensures
        trim(t) == t,
{
    assert(crate::text::leading_space_len(t) == 0);
    assert(crate::text::trim_start(t) == t);
    assert(crate::text::trailing_space_len(t) == 0);
}

/// A bare final line with one counted item, `N word in Ms`, is a final
/// summary exactly when the word is a pytest status word; so `3 warning in
/// 0s` and `1 warnings in 12s` end a `pytest -q` run as `5 passed in 2s` does.
pub proof fn law_bare_summary_single_item(n: nat, w: Seq<u8>, m: nat)
    requires
        n <= u64::MAX,
        m <= u64::MAX,
        w.len() > 0,
        forall|k: int| 0 <= k < w.len() ==> 97 <= #[trigger] w[k] <= 122,
    ensures
        bare_summary_line(
            decimal(n) + seq![SPACE] + w + lit(" in ") + decimal(m) + seq![LETTER_S],
        ) == status_word(w),
{
    reveal_strlit(" in ");
    reveal_strlit("no tests ran");
    vstd::string::is_ascii_spec_bytes(" in ");
    vstd::string::is_ascii_spec_bytes("no tests ran");
    let d = decimal(n);
    let dm = decimal(m);
    crate::text::lemma_decimal_digits(n);
    crate::text::lemma_decimal_digits(m);
    let inn = lit(" in ");
    assert(inn =~= seq![SPACE, 105u8, 110u8, SPACE]);
    let body = d + seq![SPACE] + w;
    let dur = dm + seq![LETTER_S];
    let line = body + inn + dur;
    assert(line =~= d + seq![SPACE] + w + lit(" in ") + decimal(m) + seq![LETTER_S]);
    assert(is_ascii_digit(d[0]));
    assert(line[0] == d[0]);
    lemma_trim_plain(line);
    let q = body.len() as int;
    assert(line.subrange(q, q + 4) =~= inn);
    assert(occurs_at(line, inn, q));
    assert forall|k: int| q < k <= line.len() - 4 implies !occurs_at(line, inn, k) by {
        if occurs_at(line, inn, k) {
            assert(line.subrange(k, k + 4)[0] == line[k]);
            assert(line.subrange(k, k + 4)[1] == line[k + 1]);
            if k >= q + 4 {
                assert(line[k] == dur[k - q - 4]);
                if k - q - 4 < dm.len() {
                    assert(is_ascii_digit(dm[k - q - 4]));
                }
            } else if k == q + 3 {
                assert(line[k + 1] == dur[0]);
                assert(dur[0] == dm[0]);
                assert(is_ascii_digit(dm[0]));
            } else {
                assert(line[k] == inn[k - q]);
            }
        }
    }
    lemma_rfind_is(line, inn, q, line.len() - 4);
    assert(crate::text::rfind(line, inn) == Some(q));
    assert(!starts_with(line, lit("no tests ran"))) by {
        if starts_with(line, lit("no tests ran")) {
            assert(line.subrange(0, 12)[0] == line[0]);
        }
    }
    assert(line.skip(q + 4) =~= dur);
    lemma_trim_plain(dur);
    assert(duration_text(dur)) by {
        assert(is_ascii_digit(dur[0]));
        assert forall|k: int| 0 <= k < dur.len() - 1 implies duration_byte(#[trigger] dur[k]) by {
            assert(dur[k] == dm[k]);
        }
    }
    assert(line.take(q) =~= body);
    assert(body.last() == w.last());
    lemma_trim_plain(body);
    assert(split(body, COMMA) =~= seq![body]) by {
        crate::text::lemma_next_index_of_bounds(body, COMMA, 0);
        let j = next_index_of(body, COMMA, 0);
        if j < body.len() {
            if j < d.len() {
                assert(body[j] == d[j]);
                assert(is_ascii_digit(d[j]));
            } else if j > d.len() {
                assert(body[j] == w[j - d.len() - 1]);
            }
        }
        assert(body.subrange(0, body.len() as int) =~= body);
    }
    law_counted_status_item(n, w);
    let pieces = split(body, COMMA);
    assert(pieces[0] == body);
    if status_item(body) {
        assert forall|k: int| 0 <= k < pieces.len() implies status_item(trim(#[trigger] pieces[k])) by {
            assert(k == 0);
        }
        assert(status_list(body));
    } else {
        assert(!status_item(trim(pieces[0])));
    }
}

/// `N warning`, singular, ends a bare pytest summary line like any other
/// status word: `N warning in Ms` is a final summary for every count.
pub proof fn law_single_warning_line_is_final_summary(n: nat, m: nat)
    requires
        n <= u64::MAX,
        m <= u64::MAX,
    ensures
        final_summary_line(
            decimal(n) + seq![SPACE] + lit("warning") + lit(" in ") + decimal(m) + seq![LETTER_S],
        ),
{
    reveal_strlit("warning");
    vstd::string::is_ascii_spec_bytes("warning");
    let w = lit("warning");
    assert(w =~= seq![119u8, 97u8, 114u8, 110u8, 105u8, 110u8, 103u8]);
    assert(forall|k: int| 0 <= k < w.len() ==> 97 <= #[trigger] w[k] <= 122);
    law_bare_summary_single_item(n, w, m);
}

} // verus!
