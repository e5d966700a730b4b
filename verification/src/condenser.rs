//! Generic head/tail condensing of long output, with a recovery marker.
use vstd::prelude::*;
use vstd::string::StringSliceAdditionalSpecFns;

use crate::text::{copy_bytes, decimal, lit, next_index_of, next_index_of_exec, push_all, push_decimal, push_str, NEWLINE};
use crate::time::UtcTime;

verus! {

broadcast use vstd::seq_lib::group_seq_properties;

/// Lines / bytes above which we attempt condensing.
pub const CONDENSE_LINE_THRESHOLD: usize = 100;

pub const CONDENSE_BYTE_THRESHOLD: usize = 10240;

pub const HEAD_LINES: usize = 20;

pub const TAIL_LINES: usize = 20;

pub struct CondenseResult {
    /// Condensed output to print to the terminal (valid UTF-8 when condensed;
    /// passthrough may contain invalid UTF-8 bytes).
    pub display: Vec<u8>,
    /// True if condensing was applied (the display differs from the input).
    pub condensed: bool,
}

/// Number of occurrences of byte `b` in `d`.
pub open spec fn count_byte(d: Seq<u8>, b: u8) -> nat
    decreases d.len(),
{
    if d.len() == 0 {
        0
    } else {
        count_byte(d.drop_last(), b) + if d.last() == b {
            1nat
        } else {
            0nat
        }
    }
}

pub proof fn lemma_count_byte_le(d: Seq<u8>, b: u8)
    ensures
        count_byte(d, b) <= d.len(),
    decreases d.len(),
{
    if d.len() > 0 {
        lemma_count_byte_le(d.drop_last(), b);
    }
}

/// Number of lines: newlines, plus one for an unterminated last line.
pub open spec fn lines_in(d: Seq<u8>) -> nat {
    if d.len() == 0 {
        0
    } else {
        count_byte(d, NEWLINE) + if d.last() != NEWLINE {
            1nat
        } else {
            0nat
        }
    }
}

/// Whether `d` is long enough that condensing is attempted.
pub open spec fn over_threshold(d: Seq<u8>) -> bool {
    d.len() > CONDENSE_BYTE_THRESHOLD || lines_in(d) > CONDENSE_LINE_THRESHOLD
}

/// The lines of `d` from byte `i` on, each keeping its `\n`.
pub open spec fn pieces_from(d: Seq<u8>, i: int) -> Seq<Seq<u8>>
    decreases d.len() - i,
{
    if i < 0 || i >= d.len() {
        seq![]
    } else {
        let j = next_index_of(d, NEWLINE, i);
        if j >= d.len() {
            seq![d.subrange(i, d.len() as int)]
        } else {
            proof {
                crate::text::lemma_next_index_of_bounds(d, NEWLINE, i);
            }
            seq![d.subrange(i, j + 1)] + pieces_from(d, j + 1)
        }
    }
}

/// The lines of `d`, each keeping its trailing `\n`.
pub open spec fn pieces(d: Seq<u8>) -> Seq<Seq<u8>> {
    pieces_from(d, 0)
}

/// A line ending in `\n`.
pub open spec fn terminated(p: Seq<u8>) -> Seq<u8> {
    if p.len() > 0 && p.last() == NEWLINE {
        p
    } else {
        p.push(NEWLINE)
    }
}

/// The lines, each ending in `\n`, one after the other.
pub open spec fn concat_terminated(ls: Seq<Seq<u8>>) -> Seq<u8>
    decreases ls.len(),
{
    if ls.len() == 0 {
        seq![]
    } else {
        concat_terminated(ls.drop_last()) + terminated(ls.last())
    }
}

pub open spec fn min(a: int, b: int) -> int {
    if a <= b {
        a
    } else {
        b
    }
}

/// Number of lines kept before the marker.
pub open spec fn head_count(n: int) -> int {
    min(HEAD_LINES as int, n)
}

/// Number of lines kept after the marker.
pub open spec fn tail_count(n: int) -> int {
    min(TAIL_LINES as int, n - head_count(n))
}

/// Number of lines neither before nor after the marker.
pub open spec fn omitted_count(n: int) -> int {
    n - head_count(n) - tail_count(n)
}

/// `[foldback ref=<ref> raw=<bytes>b lines=<n> omitted=<m> expires=<stamp>]\n`
#[verifier::opaque]
pub open spec fn generic_marker(
    ref_id: Seq<u8>,
    raw_len: nat,
    lines: nat,
    omitted: nat,
    stamp: Seq<char>,
) -> Seq<u8> {
    lit("[foldback ref=") + ref_id + lit(" raw=") + decimal(raw_len) + lit("b lines=") + decimal(
        lines,
    ) + lit(" omitted=") + decimal(omitted) + lit(" expires=") + vstd::utf8::encode_utf8(stamp)
        + lit("]\n")
}

/// Head lines, marker, tail lines.
#[verifier::opaque]
pub open spec fn condensed_view(d: Seq<u8>, ref_id: Seq<u8>, stamp: Seq<char>) -> Seq<u8> {
    let ls = pieces(d);
    let n = ls.len() as int;
    concat_terminated(ls.take(head_count(n))) + generic_marker(
        ref_id,
        d.len(),
        n as nat,
        omitted_count(n) as nat,
        stamp,
    ) + concat_terminated(ls.skip(n - tail_count(n)))
}

/// Whether the condensed view replaces `d` on the terminal.
pub open spec fn condenses(d: Seq<u8>, ref_id: Seq<u8>, stamp: Seq<char>) -> bool {
    over_threshold(d) && condensed_view(d, ref_id, stamp).len() < d.len()
}

/// What `condense` shows for `d`.
pub open spec fn condensed_display(d: Seq<u8>, ref_id: Seq<u8>, stamp: Seq<char>) -> Seq<u8> {
    if condenses(d, ref_id, stamp) {
        condensed_view(d, ref_id, stamp)
    } else {
        d
    }
}

/// Condense `data` for terminal display.
///
/// Returns `CondenseResult` where `.condensed` is true only when the output
/// exceeded the threshold AND the condensed form is strictly smaller.
pub fn condense(data: &[u8], ref_id: &str, expires_at: &UtcTime) -> (r: CondenseResult)
    ensures
        r.condensed == condenses(data@, ref_id.spec_bytes(), expires_at.spec_stamp()),
        r.display@ == condensed_display(data@, ref_id.spec_bytes(), expires_at.spec_stamp()),
        r.condensed ==> r.display@.len() < data@.len(),
        !r.condensed ==> r.display@ == data@,
{
    let exceeds = data.len() > CONDENSE_BYTE_THRESHOLD || line_count(data) > CONDENSE_LINE_THRESHOLD;
    if !exceeds {
        return CondenseResult { display: copy_bytes(data), condensed: false };
    }
    let condensed = build_condensed(data, ref_id, expires_at);
    if condensed.len() >= data.len() {
        return CondenseResult { display: copy_bytes(data), condensed: false };
    }
    CondenseResult { display: condensed, condensed: true }
}

/// Number of lines in `data`: newlines, plus one for an unterminated last line.
pub fn line_count(data: &[u8]) -> (r: usize)
    ensures
        r == lines_in(data@),
{
    if data.len() == 0 {
        return 0;
    }
    let mut n: usize = 0;
    let mut i: usize = 0;
    while i < data.len()
        invariant
            i <= data.len(),
            n == count_byte(data@.take(i as int), NEWLINE),
            n <= i,
        decreases data.len() - i,
    {
        assert(data@.take(i + 1).drop_last() =~= data@.take(i as int));
        if data[i] == NEWLINE {
            n = n + 1;
        }
        i = i + 1;
    }
    assert(data@.take(data.len() as int) =~= data@);
    proof {
        lemma_count_byte_le(data@.drop_last(), NEWLINE);
    }
    if data[data.len() - 1] != NEWLINE {
        n + 1
    } else {
        n
    }
}

/// The `[start, end)` ranges of the lines of `data`, each with its `\n`.
fn piece_ranges(data: &[u8]) -> (r: Vec<(usize, usize)>)
    ensures
        crate::text::ranges_within(data@, r@),
        crate::text::ranges_of(data@, r@) == pieces(data@),
        forall|k: int| 0 <= k < r@.len() ==> #[trigger] r@[k].0 < r@[k].1,
{
    let mut r: Vec<(usize, usize)> = Vec::new();
    let mut i: usize = 0;
    while i < data.len()
        invariant
            i <= data.len(),
            crate::text::ranges_within(data@, r@),
            forall|k: int| 0 <= k < r@.len() ==> #[trigger] r@[k].0 < r@[k].1,
            pieces(data@) == crate::text::ranges_of(data@, r@) + pieces_from(data@, i as int),
        decreases data.len() - i,
    {
        let j = next_index_of_exec(data, NEWLINE, i);
        let end = if j < data.len() {
            j + 1
        } else {
            j
        };
        let ghost old_r = r@;
        r.push((i, end));
        proof {
            assert(i < end <= data.len());
            assert forall|k: int| 0 <= k < r@.len() implies #[trigger] r@[k].0 <= r@[k].1
                <= data@.len() by {
                if k < old_r.len() {
                    assert(r@[k] == old_r[k]);
                } else {
                    assert(r@[k] == (i, end));
                }
            }
            assert forall|k: int| 0 <= k < r@.len() implies #[trigger] r@[k].0 < r@[k].1 by {
                if k < old_r.len() {
                    assert(r@[k] == old_r[k]);
                } else {
                    assert(r@[k] == (i, end));
                }
            }
            assert(crate::text::ranges_of(data@, r@) =~= crate::text::ranges_of(data@, old_r).push(
                data@.subrange(i as int, end as int),
            ));
            assert(pieces_from(data@, end as int) =~= Seq::<Seq<u8>>::empty() || j < data.len());
        }
        i = end;
    }
    assert(pieces_from(data@, i as int) =~= Seq::<Seq<u8>>::empty());
    r
}

/// Appends `ls[from..to]`, each line ending in `\n`.
fn push_terminated(
    out: &mut Vec<u8>,
    data: &[u8],
    rs: &Vec<(usize, usize)>,
    from: usize,
    to: usize,
)
    requires
        from <= to <= rs@.len(),
        crate::text::ranges_within(data@, rs@),
    ensures
        final(out)@ == old(out)@ + concat_terminated(
            crate::text::ranges_of(data@, rs@).subrange(from as int, to as int),
        ),
{
    let ghost ls = crate::text::ranges_of(data@, rs@);
    let mut k = from;
    assert(ls.subrange(from as int, from as int) =~= Seq::<Seq<u8>>::empty());
    while k < to
        invariant
            from <= k <= to <= rs@.len(),
            crate::text::ranges_within(data@, rs@),
            ls == crate::text::ranges_of(data@, rs@),
            out@ == old(out)@ + concat_terminated(ls.subrange(from as int, k as int)),
        decreases to - k,
    {
        let (a, b) = rs[k];
        assert(rs@[k as int].0 <= rs@[k as int].1 <= data@.len());
        let line = &data[a..b];
        push_all(out, line);
        if !(b > a && data[b - 1] == NEWLINE) {
            out.push(NEWLINE);
        }
        proof {
            assert(ls.subrange(from as int, k + 1).drop_last() =~= ls.subrange(from as int, k as int));
            assert(ls[k as int] == data@.subrange(a as int, b as int));
        }
        k = k + 1;
    }
}

/// Appends the generic marker.
fn push_generic_marker(
    out: &mut Vec<u8>,
    ref_id: &str,
    raw_len: usize,
    lines: usize,
    omitted: usize,
    expires_at: &UtcTime,
)
    ensures
        final(out)@ == old(out)@ + generic_marker(
            ref_id.spec_bytes(),
            raw_len as nat,
            lines as nat,
            omitted as nat,
            expires_at.spec_stamp(),
        ),
{
    reveal(generic_marker);
    push_str(out, "[foldback ref=");
    push_str(out, ref_id);
    push_str(out, " raw=");
    push_decimal(out, raw_len as u64);
    push_str(out, "b lines=");
    push_decimal(out, lines as u64);
    push_str(out, " omitted=");
    push_decimal(out, omitted as u64);
    push_str(out, " expires=");
    let stamp = expires_at.stamp();
    push_str(out, stamp.as_str());
    push_str(out, "]\n");
}

/// Head lines, the generic marker, tail lines.
pub fn build_condensed(data: &[u8], ref_id: &str, expires_at: &UtcTime) -> (r: Vec<u8>)
    ensures
        r@ == condensed_view(data@, ref_id.spec_bytes(), expires_at.spec_stamp()),
{
    reveal(condensed_view);
    let rs = piece_ranges(data);
    let total_lines = rs.len();
    let head = if HEAD_LINES <= total_lines {
        HEAD_LINES
    } else {
        total_lines
    };
    let tail = if TAIL_LINES <= total_lines - head {
        TAIL_LINES
    } else {
        total_lines - head
    };
    let omitted = total_lines - head - tail;
    let mut out: Vec<u8> = Vec::new();
    push_terminated(&mut out, data, &rs, 0, head);
    push_generic_marker(&mut out, ref_id, data.len(), total_lines, omitted, expires_at);
    push_terminated(&mut out, data, &rs, total_lines - tail, total_lines);
    proof {
        let ls = pieces(data@);
        assert(ls.take(head as int) =~= ls.subrange(0, head as int));
        assert(ls.skip(total_lines - tail) =~= ls.subrange(total_lines - tail, total_lines as int));
    }
    out
}

/// Output larger than 10 KB, or with more than 100 newlines, is condensed
/// whenever its head/marker/tail view is strictly shorter than it, whatever
/// its other measure; output of at most 10 KB and at most 100 lines is never
/// condensed.
pub proof fn law_condense_thresholds(d: Seq<u8>, ref_id: Seq<u8>, stamp: Seq<char>)
    ensures
        (d.len() > 10240 || count_byte(d, NEWLINE) > 100) && condensed_view(d, ref_id, stamp).len()
            < d.len() ==> condenses(d, ref_id, stamp),
        d.len() <= 10240 && lines_in(d) <= 100 ==> !condenses(d, ref_id, stamp),
{
}

} // verus!
