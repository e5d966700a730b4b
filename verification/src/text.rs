//! Byte-level text primitives shared by the condensers and reducers.
//!
//! Captured output is handled as raw bytes. Every literal pattern used by the
//! library is ASCII, so matching, splitting on `\n` and ASCII case folding on
//! bytes agree with the same operations on the decoded text.
use vstd::prelude::*;
use vstd::string::StringSliceAdditionalSpecFns;

verus! {

broadcast use vstd::seq_lib::group_seq_properties;

pub const NEWLINE: u8 = 10;

pub const CARRIAGE_RETURN: u8 = 13;

pub const SPACE: u8 = 32;

/// The bytes of a string (its UTF-8 encoding).
pub open spec fn lit(s: &str) -> Seq<u8> {
    s.spec_bytes()
}

/// The bytes of an owned string (its UTF-8 encoding).
pub open spec fn string_bytes(s: String) -> Seq<u8> {
    vstd::utf8::encode_utf8(s@)
}

pub open spec fn starts_with(s: Seq<u8>, p: Seq<u8>) -> bool {
    p.len() <= s.len() && s.subrange(0, p.len() as int) == p
}

pub open spec fn ends_with(s: Seq<u8>, p: Seq<u8>) -> bool {
    p.len() <= s.len() && s.subrange(s.len() - p.len(), s.len() as int) == p
}

/// `p` occurs in `s` starting at byte `i`.
pub open spec fn occurs_at(s: Seq<u8>, p: Seq<u8>, i: int) -> bool {
    0 <= i && i + p.len() <= s.len() && s.subrange(i, i + p.len()) == p
}

pub open spec fn contains(s: Seq<u8>, p: Seq<u8>) -> bool {
    exists|i: int| occurs_at(s, p, i)
}

/// The greatest start index `<= i` at which `p` occurs in `s`.
pub open spec fn rfind_upto(s: Seq<u8>, p: Seq<u8>, i: int) -> Option<int>
    decreases i + 1,
{
    if i < 0 {
        None
    } else if occurs_at(s, p, i) {
        Some(i)
    } else {
        rfind_upto(s, p, i - 1)
    }
}

/// The start index of the last occurrence of `p` in `s`.
pub open spec fn rfind(s: Seq<u8>, p: Seq<u8>) -> Option<int> {
    rfind_upto(s, p, s.len() - p.len())
}

/// The first index `>= i` that holds byte `b`, or `s.len()` when there is none.
pub open spec fn next_index_of(s: Seq<u8>, b: u8, i: int) -> int
    decreases s.len() - i,
{
    if i >= s.len() {
        s.len() as int
    } else if s[i] == b {
        i
    } else {
        next_index_of(s, b, i + 1)
    }
}

pub proof fn lemma_next_index_of_bounds(s: Seq<u8>, b: u8, i: int)
    requires
        0 <= i <= s.len(),
    ensures
        i <= next_index_of(s, b, i) <= s.len(),
        next_index_of(s, b, i) < s.len() ==> s[next_index_of(s, b, i)] == b,
        forall|k: int| i <= k < next_index_of(s, b, i) ==> s[k] != b,
    decreases s.len() - i,
{
    if i < s.len() && s[i] != b {
        lemma_next_index_of_bounds(s, b, i + 1);
    }
}

/// The last index that holds byte `b`, if any.
pub open spec fn last_index_of_upto(s: Seq<u8>, b: u8, i: int) -> Option<int>
    decreases i + 1,
{
    if i < 0 {
        None
    } else if s[i] == b {
        Some(i)
    } else {
        last_index_of_upto(s, b, i - 1)
    }
}

pub open spec fn last_index_of(s: Seq<u8>, b: u8) -> Option<int> {
    last_index_of_upto(s, b, s.len() - 1)
}

pub open spec fn is_ascii_digit(b: u8) -> bool {
    48 <= b <= 57
}

pub open spec fn is_ascii_hexdigit(b: u8) -> bool {
    is_ascii_digit(b) || (65 <= b <= 70) || (97 <= b <= 102)
}

pub open spec fn ascii_lower_byte(b: u8) -> u8 {
    if 65 <= b <= 90 {
        (b + 32) as u8
    } else {
        b
    }
}

/// ASCII case folding; other bytes are unchanged.
pub open spec fn ascii_lower(s: Seq<u8>) -> Seq<u8> {
    s.map_values(|b: u8| ascii_lower_byte(b))
}

/// Length of the UTF-8 encoding of a Unicode `White_Space` character that
/// starts `s`, or 0 when `s` does not start with one.
pub open spec fn leading_space_len(s: Seq<u8>) -> int {
    if s.len() >= 1 && (9 <= s[0] <= 13 || s[0] == 32) {
        1
    } else if s.len() >= 2 && s[0] == 0xC2 && (s[1] == 0x85 || s[1] == 0xA0) {
        2
    } else if s.len() >= 3 && ((s[0] == 0xE1 && s[1] == 0x9A && s[2] == 0x80) || (s[0] == 0xE2
        && s[1] == 0x80 && ((0x80 <= s[2] <= 0x8A) || s[2] == 0xA8 || s[2] == 0xA9 || s[2]
        == 0xAF)) || (s[0] == 0xE2 && s[1] == 0x81 && s[2] == 0x9F) || (s[0] == 0xE3 && s[1]
        == 0x80 && s[2] == 0x80)) {
        3
    } else {
        0
    }
}

/// Length of the UTF-8 encoding of a Unicode `White_Space` character that
/// ends `s`, or 0 when `s` does not end with one.
pub open spec fn trailing_space_len(s: Seq<u8>) -> int {
    let n = s.len() as int;
    if n >= 1 && (9 <= s[n - 1] <= 13 || s[n - 1] == 32) {
        1
    } else if n >= 2 && s[n - 2] == 0xC2 && (s[n - 1] == 0x85 || s[n - 1] == 0xA0) {
        2
    } else if n >= 3 && ((s[n - 3] == 0xE1 && s[n - 2] == 0x9A && s[n - 1] == 0x80) || (s[n - 3]
        == 0xE2 && s[n - 2] == 0x80 && ((0x80 <= s[n - 1] <= 0x8A) || s[n - 1] == 0xA8 || s[n
        - 1] == 0xA9 || s[n - 1] == 0xAF)) || (s[n - 3] == 0xE2 && s[n - 2] == 0x81 && s[n - 1]
        == 0x9F) || (s[n - 3] == 0xE3 && s[n - 2] == 0x80 && s[n - 1] == 0x80)) {
        3
    } else {
        0
    }
}

/// `s` without its leading Unicode whitespace.
pub open spec fn trim_start(s: Seq<u8>) -> Seq<u8>
    decreases s.len(),
{
    if leading_space_len(s) > 0 {
        trim_start(s.skip(leading_space_len(s)))
    } else {
        s
    }
}

/// `s` without its trailing Unicode whitespace.
pub open spec fn trim_end(s: Seq<u8>) -> Seq<u8>
    decreases s.len(),
{
    if trailing_space_len(s) > 0 {
        trim_end(s.take(s.len() - trailing_space_len(s)))
    } else {
        s
    }
}

/// `s` without leading and trailing Unicode whitespace (`str::trim`).
pub open spec fn trim(s: Seq<u8>) -> Seq<u8> {
    trim_end(trim_start(s))
}

/// `s` without any leading or trailing byte `b` (`str::trim_matches` with an ASCII char).
pub open spec fn trim_byte_start(s: Seq<u8>, b: u8) -> Seq<u8>
    decreases s.len(),
{
    if s.len() > 0 && s[0] == b {
        trim_byte_start(s.skip(1), b)
    } else {
        s
    }
}

pub open spec fn trim_byte_end(s: Seq<u8>, b: u8) -> Seq<u8>
    decreases s.len(),
{
    if s.len() > 0 && s.last() == b {
        trim_byte_end(s.drop_last(), b)
    } else {
        s
    }
}

pub open spec fn trim_byte(s: Seq<u8>, b: u8) -> Seq<u8> {
    trim_byte_end(trim_byte_start(s, b), b)
}

/// The decimal digits of `n`, most significant first, without leading zeros.
pub open spec fn decimal(n: nat) -> Seq<u8>
    decreases n,
{
    if n < 10 {
        seq![(48 + n) as u8]
    } else {
        decimal(n / 10).push((48 + n % 10) as u8)
    }
}

/// The pieces of `s` from byte `i` on, split at every byte `b` (`str::split`);
/// a trailing separator leaves an empty last piece.
pub open spec fn split_from(s: Seq<u8>, b: u8, i: int) -> Seq<Seq<u8>>
    decreases s.len() - i,
{
    if i < 0 || i > s.len() {
        seq![]
    } else {
        let j = next_index_of(s, b, i);
        if j >= s.len() {
            seq![s.subrange(i, s.len() as int)]
        } else {
            proof {
                lemma_next_index_of_bounds(s, b, i);
            }
            seq![s.subrange(i, j)] + split_from(s, b, j + 1)
        }
    }
}

pub open spec fn split(s: Seq<u8>, b: u8) -> Seq<Seq<u8>> {
    split_from(s, b, 0)
}

/// The value of a string of decimal digits.
pub open spec fn digits_value(d: Seq<u8>) -> nat
    decreases d.len(),
{
    if d.len() == 0 {
        0
    } else {
        digits_value(d.drop_last()) * 10 + (d.last() - 48) as nat
    }
}

pub open spec fn all_digits(d: Seq<u8>) -> bool {
    forall|k: int| 0 <= k < d.len() ==> is_ascii_digit(#[trigger] d[k])
}

/// `u64::from_str` accepts `s`: an optional `+`, then at least one digit and
/// only digits, with a value that fits in a `u64`.
pub open spec fn parses_as_u64(s: Seq<u8>) -> bool {
    let d = if s.len() > 0 && s[0] == 43 {
        s.skip(1)
    } else {
        s
    };
    d.len() > 0 && all_digits(d) && digits_value(d) <= u64::MAX
}

/// What `u64::from_str` gives for `s`: the value of its digits, or `None`.
pub open spec fn parsed_u64(s: Seq<u8>) -> Option<u64> {
    let d = if s.len() > 0 && s[0] == 43 {
        s.skip(1)
    } else {
        s
    };
    if parses_as_u64(s) {
        Some(digits_value(d) as u64)
    } else {
        None
    }
}

// ── lines ─────────────────────────────────────────────────────────────────

/// A line's content: the segment before a `\n`, minus a `\r` that precedes
/// that `\n`. An unterminated final segment is kept as it is.
pub open spec fn line_body(s: Seq<u8>, start: int, end: int) -> Seq<u8> {
    if end < s.len() && end > start && s[end - 1] == CARRIAGE_RETURN {
        s.subrange(start, end - 1)
    } else {
        s.subrange(start, end)
    }
}

/// The lines of `s` from byte `i` on, as `str::lines` yields them.
pub open spec fn lines_from(s: Seq<u8>, i: int) -> Seq<Seq<u8>>
    decreases s.len() - i,
{
    if i < 0 || i >= s.len() {
        seq![]
    } else {
        let j = next_index_of(s, NEWLINE, i);
        proof {
            lemma_next_index_of_bounds(s, NEWLINE, i);
        }
        if j >= s.len() {
            seq![line_body(s, i, j)]
        } else {
            seq![line_body(s, i, j)] + lines_from(s, j + 1)
        }
    }
}

/// The lines of `s` (`str::lines`): split at `\n`, a `\r` before the `\n`
/// removed, no empty line after a final `\n`.
pub open spec fn lines(s: Seq<u8>) -> Seq<Seq<u8>> {
    lines_from(s, 0)
}

/// Lines joined with `\n` between them (`[&str]::join("\n")`).
pub open spec fn join_lines(ls: Seq<Seq<u8>>) -> Seq<u8>
    decreases ls.len(),
{
    if ls.len() == 0 {
        seq![]
    } else if ls.len() == 1 {
        ls[0]
    } else {
        join_lines(ls.drop_last()) + seq![NEWLINE] + ls.last()
    }
}

/// Bytes in `[start, end)` of `s`.
pub open spec fn range_of(s: Seq<u8>, r: (usize, usize)) -> Seq<u8> {
    s.subrange(r.0 as int, r.1 as int)
}

pub open spec fn ranges_of(s: Seq<u8>, rs: Seq<(usize, usize)>) -> Seq<Seq<u8>> {
    rs.map_values(|r: (usize, usize)| range_of(s, r))
}

pub open spec fn ranges_within(s: Seq<u8>, rs: Seq<(usize, usize)>) -> bool {
    forall|k: int| 0 <= k < rs.len() ==> #[trigger] rs[k].0 <= rs[k].1 <= s.len()
}

// ── executable helpers ──────────────────────────────────────────────────────

/// Whether `s[at..at + p.len()] == p`.
pub fn occurs_at_exec(s: &[u8], p: &[u8], at: usize) -> (r: bool)
    ensures
        r == occurs_at(s@, p@, at as int),
{
    if at > s.len() || p.len() > s.len() - at {
        return false;
    }
    let mut k: usize = 0;
    while k < p.len()
        invariant
            at + p.len() <= s.len(),
            k <= p.len(),
            forall|m: int| 0 <= m < k ==> s@[at + m] == p@[m],
        decreases p.len() - k,
    {
        if s[at + k] != p[k] {
            assert(s@.subrange(at as int, at + p.len())[k as int] != p@[k as int]);
            return false;
        }
        k = k + 1;
    }
    assert(s@.subrange(at as int, at + p.len()) =~= p@);
    true
}

pub fn starts_with_exec(s: &[u8], p: &[u8]) -> (r: bool)
    ensures
        r == starts_with(s@, p@),
{
    occurs_at_exec(s, p, 0)
}

pub fn ends_with_exec(s: &[u8], p: &[u8]) -> (r: bool)
    ensures
        r == ends_with(s@, p@),
{
    if p.len() > s.len() {
        return false;
    }
    occurs_at_exec(s, p, s.len() - p.len())
}

/// Whether `s == p`.
pub fn bytes_eq(s: &[u8], p: &[u8]) -> (r: bool)
    ensures
        r == (s@ == p@),
{
    if s.len() != p.len() {
        return false;
    }
    let r = occurs_at_exec(s, p, 0);
    assert(r ==> s@.subrange(0, p@.len() as int) =~= s@);
    proof {
        if s@ == p@ {
            assert(s@.subrange(0, p@.len() as int) =~= s@);
        }
    }
    r
}

pub fn contains_exec(s: &[u8], p: &[u8]) -> (r: bool)
    ensures
        r == contains(s@, p@),
{
    if p.len() > s.len() {
        assert forall|i: int| !occurs_at(s@, p@, i) by {}
        return false;
    }
    let last = s.len() - p.len();
    let mut i: usize = 0;
    loop
        invariant
            last == s.len() - p.len(),
            p.len() <= s.len(),
            i <= last,
            forall|m: int| 0 <= m < i ==> !occurs_at(s@, p@, m),
        decreases last - i,
    {
        if occurs_at_exec(s, p, i) {
            return true;
        }
        if i == last {
            assert forall|m: int| !occurs_at(s@, p@, m) by {
                if 0 <= m <= i {
                }
            }
            return false;
        }
        i = i + 1;
    }
}

/// The start of the last occurrence of `p` in `s` (`str::rfind`).
pub fn rfind_exec(s: &[u8], p: &[u8]) -> (r: Option<usize>)
    ensures
        r matches Some(i) ==> rfind(s@, p@) == Some(i as int),
        r is None ==> rfind(s@, p@) is None,
{
    if p.len() > s.len() {
        assert(rfind_upto(s@, p@, s@.len() - p@.len()) is None);
        return None;
    }
    let mut i: usize = s.len() - p.len();
    loop
        invariant
            i + p.len() <= s.len(),
            rfind(s@, p@) == rfind_upto(s@, p@, i as int),
        decreases i,
    {
        if occurs_at_exec(s, p, i) {
            return Some(i);
        }
        if i == 0 {
            assert(rfind_upto(s@, p@, -1) is None);
            return None;
        }
        i = i - 1;
    }
}

/// The first index at or after `from` holding byte `b`, or `s.len()`.
pub fn next_index_of_exec(s: &[u8], b: u8, from: usize) -> (r: usize)
    requires
        from <= s.len(),
    ensures
        r == next_index_of(s@, b, from as int),
        from <= r <= s.len(),
{
    let mut i = from;
    while i < s.len()
        invariant
            from <= i <= s.len(),
            next_index_of(s@, b, from as int) == next_index_of(s@, b, i as int),
        decreases s.len() - i,
    {
        if s[i] == b {
            return i;
        }
        i = i + 1;
    }
    i
}

/// The last index holding byte `b`, if any.
pub fn last_index_of_exec(s: &[u8], b: u8) -> (r: Option<usize>)
    ensures
        r matches Some(i) ==> last_index_of(s@, b) == Some(i as int) && i < s.len(),
        r is None ==> last_index_of(s@, b) is None,
{
    let mut i: usize = s.len();
    while i > 0
        invariant
            i <= s.len(),
            last_index_of(s@, b) == last_index_of_upto(s@, b, i - 1),
        decreases i,
    {
        if s[i - 1] == b {
            return Some(i - 1);
        }
        i = i - 1;
    }
    None
}

/// The `[start, end)` range of `s[from..to]` with leading and trailing Unicode
/// whitespace removed.
pub fn trim_range(s: &[u8], from: usize, to: usize) -> (r: (usize, usize))
    requires
        from <= to <= s.len(),
    ensures
        from <= r.0 <= r.1 <= to,
        s@.subrange(r.0 as int, r.1 as int) == trim(s@.subrange(from as int, to as int)),
{
    let mut a = from;
    loop
        invariant
            from <= a <= to <= s.len(),
            trim_start(s@.subrange(from as int, to as int)) == trim_start(
                s@.subrange(a as int, to as int),
            ),
        ensures
            from <= a <= to,
            trim_start(s@.subrange(from as int, to as int)) == s@.subrange(a as int, to as int),
        decreases to - a,
    {
        let k = leading_space_exec(s, a, to);
        if k == 0 {
            break;
        }
        proof {
            let t = s@.subrange(a as int, to as int);
            assert(t.skip(k as int) =~= s@.subrange(a + k, to as int));
        }
        a = a + k;
    }
    let mut e = to;
    loop
        invariant
            from <= a <= e <= to <= s.len(),
            trim_start(s@.subrange(from as int, to as int)) == s@.subrange(a as int, to as int),
            trim_end(s@.subrange(a as int, to as int)) == trim_end(
                s@.subrange(a as int, e as int),
            ),
        ensures
            a <= e <= to,
            trim_end(s@.subrange(a as int, to as int)) == s@.subrange(a as int, e as int),
        decreases e - a,
    {
        let k = trailing_space_exec(s, a, e);
        if k == 0 {
            break;
        }
        proof {
            let t = s@.subrange(a as int, e as int);
            assert(t.take(t.len() - k) =~= s@.subrange(a as int, e - k));
        }
        e = e - k;
    }
    (a, e)
}

fn leading_space_exec(s: &[u8], a: usize, e: usize) -> (r: usize)
    requires
        a <= e <= s.len(),
    ensures
        r == leading_space_len(s@.subrange(a as int, e as int)),
        r <= e - a,
{
    let ghost t = s@.subrange(a as int, e as int);
    let n = e - a;
    if n >= 1 && ((9 <= s[a] && s[a] <= 13) || s[a] == 32) {
        return 1;
    }
    if n >= 2 && s[a] == 0xC2 && (s[a + 1] == 0x85 || s[a + 1] == 0xA0) {
        return 2;
    }
    if n >= 3 {
        let (x, y, z) = (s[a], s[a + 1], s[a + 2]);
        if (x == 0xE1 && y == 0x9A && z == 0x80) || (x == 0xE2 && y == 0x80 && ((0x80 <= z && z
            <= 0x8A) || z == 0xA8 || z == 0xA9 || z == 0xAF)) || (x == 0xE2 && y == 0x81 && z
            == 0x9F) || (x == 0xE3 && y == 0x80 && z == 0x80) {
            return 3;
        }
    }
    0
}

fn trailing_space_exec(s: &[u8], a: usize, e: usize) -> (r: usize)
    requires
        a <= e <= s.len(),
    ensures
        r == trailing_space_len(s@.subrange(a as int, e as int)),
        r <= e - a,
{
    let n = e - a;
    if n >= 1 && ((9 <= s[e - 1] && s[e - 1] <= 13) || s[e - 1] == 32) {
        return 1;
    }
    if n >= 2 && s[e - 2] == 0xC2 && (s[e - 1] == 0x85 || s[e - 1] == 0xA0) {
        return 2;
    }
    if n >= 3 {
        let (x, y, z) = (s[e - 3], s[e - 2], s[e - 1]);
        if (x == 0xE1 && y == 0x9A && z == 0x80) || (x == 0xE2 && y == 0x80 && ((0x80 <= z && z
            <= 0x8A) || z == 0xA8 || z == 0xA9 || z == 0xAF)) || (x == 0xE2 && y == 0x81 && z
            == 0x9F) || (x == 0xE3 && y == 0x80 && z == 0x80) {
            return 3;
        }
    }
    0
}

/// The `[start, end)` range of `s[from..to]` with leading and trailing byte `b` removed.
pub fn trim_byte_range(s: &[u8], from: usize, to: usize, b: u8) -> (r: (usize, usize))
    requires
        from <= to <= s.len(),
    ensures
        from <= r.0 <= r.1 <= to,
        s@.subrange(r.0 as int, r.1 as int) == trim_byte(s@.subrange(from as int, to as int), b),
{
    let mut a = from;
    while a < to && s[a] == b
        invariant
            from <= a <= to <= s.len(),
            trim_byte_start(s@.subrange(from as int, to as int), b) == trim_byte_start(
                s@.subrange(a as int, to as int),
                b,
            ),
        decreases to - a,
    {
        assert(s@.subrange(a as int, to as int).skip(1) =~= s@.subrange(a + 1, to as int));
        a = a + 1;
    }
    let mut e = to;
    while e > a && s[e - 1] == b
        invariant
            from <= a <= e <= to <= s.len(),
            trim_byte_start(s@.subrange(from as int, to as int), b) == s@.subrange(
                a as int,
                to as int,
            ),
            trim_byte_end(s@.subrange(a as int, to as int), b) == trim_byte_end(
                s@.subrange(a as int, e as int),
                b,
            ),
        decreases e - a,
    {
        assert(s@.subrange(a as int, e as int).drop_last() =~= s@.subrange(a as int, e - 1));
        e = e - 1;
    }
    (a, e)
}

/// Appends the decimal digits of `n` (`u64::to_string`).
pub fn push_decimal(out: &mut Vec<u8>, n: u64)
    ensures
        final(out)@ == old(out)@ + decimal(n as nat),
    decreases n,
{
    if n >= 10 {
        push_decimal(out, n / 10);
    }
    out.push((48 + n % 10) as u8);
}

/// Appends all bytes of `b`.
pub fn push_all(out: &mut Vec<u8>, b: &[u8])
    ensures
        final(out)@ == old(out)@ + b@,
{
    out.extend_from_slice(b);
}

/// Whether `b` is valid UTF-8, by `std::str::from_utf8`. The contract claims
/// that `std::str::from_utf8` accepts exactly the byte sequences that vstd's
/// `valid_utf8` describes (well-formed, shortest-form encodings of Unicode
/// scalar values).
#[verifier::external_body]
pub fn is_valid_utf8(b: &[u8]) -> (r: bool)
    ensures
        r == vstd::utf8::valid_utf8(b@),
{
    std::str::from_utf8(b).is_ok()
}

pub proof fn lemma_join_push(ls: Seq<Seq<u8>>, l: Seq<u8>)
    ensures
        join_lines(ls.push(l)) == if ls.len() == 0 {
            l
        } else {
            join_lines(ls) + seq![NEWLINE] + l
        },
{
    assert(ls.push(l).drop_last() =~= ls);
    if ls.len() == 0 {
        assert(ls.push(l) =~= seq![l]);
    }
}

/// Appends `line` to `out`, after a `\n` unless `first`.
pub fn push_line(out: &mut Vec<u8>, first: bool, line: &[u8])
    ensures
        final(out)@ == if first {
            old(out)@ + line@
        } else {
            old(out)@ + seq![NEWLINE] + line@
        },
{
    if !first {
        out.push(NEWLINE);
    }
    out.extend_from_slice(line);
}

/// `b` with ASCII letters in lower case (`str::to_ascii_lowercase`).
pub fn ascii_lowercase(b: &[u8]) -> (r: Vec<u8>)
    ensures
        r@ == ascii_lower(b@),
{
    let mut r: Vec<u8> = Vec::new();
    let mut i: usize = 0;
    while i < b.len()
        invariant
            i <= b.len(),
            r@ == ascii_lower(b@.take(i as int)),
        decreases b.len() - i,
    {
        let c = b[i];
        if 65 <= c && c <= 90 {
            r.push(c + 32);
        } else {
            r.push(c);
        }
        assert(ascii_lower(b@.take(i + 1)) =~= ascii_lower(b@.take(i as int)).push(
            ascii_lower_byte(c),
        ));
        i = i + 1;
    }
    assert(b@.take(b.len() as int) =~= b@);
    r
}

/// `u64::from_str` on `s[from..to]`: the value, or `None` where it fails.
pub fn parse_u64_range(s: &[u8], from: usize, to: usize) -> (r: Option<u64>)
    requires
        from <= to <= s.len(),
    ensures
        r == parsed_u64(s@.subrange(from as int, to as int)),
{
    let ghost t = s@.subrange(from as int, to as int);
    let mut a = from;
    if a < to && s[a] == 43 {
        a = a + 1;
    }
    assert(s@.subrange(a as int, to as int) =~= (if t.len() > 0 && t[0] == 43 {
        t.skip(1)
    } else {
        t
    }));
    if a == to {
        return None;
    }
    let mut v: u64 = 0;
    let mut i = a;
    while i < to
        invariant
            t == s@.subrange(from as int, to as int),
            a < to,
            a <= i <= to <= s.len(),
            s@.subrange(a as int, to as int) == (if t.len() > 0 && t[0] == 43 {
                t.skip(1)
            } else {
                t
            }),
            parses_as_u64(t) == (all_digits(s@.subrange(a as int, to as int)) && digits_value(
                s@.subrange(a as int, to as int),
            ) <= u64::MAX),
            all_digits(s@.subrange(a as int, i as int)),
            v as nat == digits_value(s@.subrange(a as int, i as int)),
        decreases to - i,
    {
        let c = s[i];
        assert(s@.subrange(a as int, i + 1).drop_last() =~= s@.subrange(a as int, i as int));
        if !(48 <= c && c <= 57) {
            assert(s@.subrange(a as int, to as int)[i - a] == c);
            assert(!all_digits(s@.subrange(a as int, to as int)));
            assert(!parses_as_u64(t));
            return None;
        }
        assert(all_digits(s@.subrange(a as int, i + 1)));
        match v.checked_mul(10) {
            Some(m) => match m.checked_add((c - 48) as u64) {
                Some(n) => {
                    v = n;
                },
                None => {
                    proof {
                        assert(digits_value(s@.subrange(a as int, i + 1)) == v * 10 + (c - 48));
                        assert(s@.subrange(a as int, to as int).take(i + 1 - a) =~= s@.subrange(
                            a as int,
                            i + 1,
                        ));
                        lemma_overflow_rejects(s@.subrange(a as int, to as int), i + 1 - a);
                    }
                    return None;
                },
            },
            None => {
                proof {
                    assert(digits_value(s@.subrange(a as int, i + 1)) == v * 10 + (c - 48));
                    assert(s@.subrange(a as int, to as int).take(i + 1 - a) =~= s@.subrange(
                        a as int,
                        i + 1,
                    ));
                    lemma_overflow_rejects(s@.subrange(a as int, to as int), i + 1 - a);
                }
                return None;
            },
        }
        i = i + 1;
    }
    proof {
        assert(s@.subrange(a as int, i as int) =~= s@.subrange(a as int, to as int));
    }
    Some(v)
}

/// Whether `u64::from_str` accepts `s[from..to]`.
pub fn parses_as_u64_exec(s: &[u8], from: usize, to: usize) -> (r: bool)
    requires
        from <= to <= s.len(),
    ensures
        r == parses_as_u64(s@.subrange(from as int, to as int)),
{
    parse_u64_range(s, from, to).is_some()
}

/// When a digit prefix is already too large, the whole string is rejected.
pub proof fn lemma_overflow_rejects(d: Seq<u8>, n: int)
    requires
        0 <= n <= d.len(),
        all_digits(d.take(n)),
        digits_value(d.take(n)) > u64::MAX,
    ensures
        !(all_digits(d) && digits_value(d) <= u64::MAX),
{
    if all_digits(d) {
        lemma_digits_value_prefix(d, n);
    }
}

/// A longer digit string is worth at least as much as its prefix.
pub proof fn lemma_digits_value_prefix(d: Seq<u8>, n: int)
    requires
        0 <= n <= d.len(),
        all_digits(d),
    ensures
        digits_value(d.take(n)) <= digits_value(d),
    decreases d.len() - n,
{
    if n < d.len() {
        lemma_digits_value_prefix(d, n + 1);
        assert(d.take(n + 1).drop_last() =~= d.take(n));
        assert(is_ascii_digit(d[n]));
    } else {
        assert(d.take(n) =~= d);
    }
}

/// A fresh copy of `b`.
pub fn copy_bytes(b: &[u8]) -> (r: Vec<u8>)
    ensures
        r@ == b@,
{
    let mut r: Vec<u8> = Vec::new();
    r.extend_from_slice(b);
    r
}

/// Appends the bytes of `s`.
pub fn push_str(out: &mut Vec<u8>, s: &str)
    ensures
        final(out)@ == old(out)@ + lit(s),
{
    out.extend_from_slice(s.as_bytes());
}

/// The `[start, end)` ranges of the lines of `s` (`str::lines`).
pub fn line_ranges(s: &[u8]) -> (r: Vec<(usize, usize)>)
    ensures
        ranges_within(s@, r@),
        ranges_of(s@, r@) == lines(s@),
{
    let mut r: Vec<(usize, usize)> = Vec::new();
    let mut i: usize = 0;
    while i < s.len()
        invariant
            i <= s.len(),
            ranges_within(s@, r@),
            lines(s@) == ranges_of(s@, r@) + lines_from(s@, i as int),
        decreases s.len() - i,
    {
        let j = next_index_of_exec(s, NEWLINE, i);
        let end = if j < s.len() && j > i && s[j - 1] == CARRIAGE_RETURN {
            j - 1
        } else {
            j
        };
        let ghost old_r = r@;
        r.push((i, end));
        proof {
            assert forall|k: int| 0 <= k < r@.len() implies #[trigger] r@[k].0 <= r@[k].1 <= s@.len() by {
                if k < old_r.len() {
                    assert(r@[k] == old_r[k]);
                }
            }
            assert(range_of(s@, (i, end)) == line_body(s@, i as int, j as int));
            assert(ranges_of(s@, r@) =~= ranges_of(s@, old_r).push(range_of(s@, (i, end))));
            if j < s.len() {
                assert(lines_from(s@, i as int) == seq![line_body(s@, i as int, j as int)]
                    + lines_from(s@, j + 1));
            } else {
                assert(lines_from(s@, i as int) == seq![line_body(s@, i as int, j as int)]);
                assert(lines_from(s@, j as int) =~= Seq::<Seq<u8>>::empty());
            }
        }
        i = if j < s.len() {
            j + 1
        } else {
            j
        };
    }
    assert(lines_from(s@, i as int) =~= Seq::<Seq<u8>>::empty());
    r
}

/// The decimal digits of `n` as characters, without leading zeros.
pub open spec fn decimal_chars(n: nat) -> Seq<char>
    decreases n,
{
    if n < 10 {
        seq![(48 + n) as char]
    } else {
        decimal_chars(n / 10).push((48 + n % 10) as char)
    }
}

/// `n` as `to_string` writes a signed integer: a `-` before the digits of a
/// negative number.
pub open spec fn signed_text(n: int) -> Seq<char> {
    if n < 0 {
        seq!['-'] + decimal_chars((-n) as nat)
    } else {
        decimal_chars(n as nat)
    }
}

/// Appends `c` to `s` (`String::push`).
#[verifier::external_body]
pub fn push_char(s: &mut String, c: char)
    ensures
        final(s)@ == old(s)@.push(c),
{
    s.push(c);
}

/// Appends the decimal digits of `n`.
pub fn push_u64_text(s: &mut String, n: u64)
    ensures
        final(s)@ == old(s)@ + decimal_chars(n as nat),
    decreases n,
{
    if n >= 10 {
        push_u64_text(s, n / 10);
    }
    let d = (n % 10) as u8;
    push_char(s, (48 + d) as char);
}

/// Appends `n` as `i64::to_string` writes it.
pub fn push_i64_text(s: &mut String, n: i64)
    ensures
        final(s)@ == old(s)@ + signed_text(n as int),
{
    if n < 0 {
        push_char(s, '-');
        let m: u64 = ((-(n + 1)) as u64) + 1;
        push_u64_text(s, m);
        assert(old(s)@.push('-') + decimal_chars(m as nat) =~= old(s)@ + signed_text(n as int));
    } else {
        push_u64_text(s, n as u64);
    }
}

/// Two strings are equal exactly when their encodings are.
pub proof fn lemma_str_eq_bytes(a: &str, b: &str)
    ensures
        (a@ == b@) <==> (a.spec_bytes() == b.spec_bytes()),
{
    vstd::utf8::encode_utf8_decode_utf8(a@);
    vstd::utf8::encode_utf8_decode_utf8(b@);
}

/// Whether two strings are equal.
pub fn str_eq(a: &str, b: &str) -> (r: bool)
    ensures
        r == (a@ == b@),
{
    proof {
        lemma_str_eq_bytes(a, b);
    }
    bytes_eq(a.as_bytes(), b.as_bytes())
}

/// `sub` is `full` with some lines left out: `idx` gives, in increasing
/// order, where each line of `sub` stands in `full`.
pub open spec fn embeds(sub: Seq<Seq<u8>>, full: Seq<Seq<u8>>, idx: Seq<int>) -> bool {
    &&& idx.len() == sub.len()
    &&& forall|k: int| 0 <= k < idx.len() ==> 0 <= #[trigger] idx[k] < full.len() && full[idx[k]] == sub[k]
    &&& forall|j: int, k: int| 0 <= j < k < idx.len() ==> #[trigger] idx[j] < #[trigger] idx[k]
}

/// The decimal digits of `n` are ASCII digits, at least one, and their value
/// is `n`.
pub proof fn lemma_decimal_digits(n: nat)
    ensures
        decimal(n).len() > 0,
        all_digits(decimal(n)),
        digits_value(decimal(n)) == n,
    decreases n,
{
    if n >= 10 {
        lemma_decimal_digits(n / 10);
        let d = decimal(n);
        assert(d.drop_last() =~= decimal(n / 10));
        assert(all_digits(d)) by {
            assert forall|k: int| 0 <= k < d.len() implies is_ascii_digit(#[trigger] d[k]) by {
                if k < d.len() - 1 {
                    assert(d[k] == decimal(n / 10)[k]);
                }
            }
        }
        assert(d.last() == (48 + n % 10) as u8);
        assert(d.last() - 48 == n % 10);
        assert(digits_value(d) == digits_value(decimal(n / 10)) * 10 + (d.last() - 48) as nat);
        assert((n / 10) * 10 + n % 10 == n) by (nonlinear_arith);
    } else {
        let d = decimal(n);
        assert(d.drop_last() =~= Seq::<u8>::empty());
        assert(d.last() == (48 + n) as u8);
        assert(d.last() - 48 == n);
        assert(digits_value(d) == digits_value(d.drop_last()) * 10 + (d.last() - 48) as nat);
    }
}

/// A run in the middle of a concatenation is contained in it.
pub proof fn lemma_contains_middle(a: Seq<u8>, b: Seq<u8>, c: Seq<u8>)
    ensures
        contains(a + b + c, b),
{
    let s = a + b + c;
    assert(s.subrange(a.len() as int, (a.len() + b.len()) as int) =~= b);
    assert(occurs_at(s, b, a.len() as int));
}

/// Containment is transitive.
pub proof fn lemma_contains_trans(a: Seq<u8>, b: Seq<u8>, c: Seq<u8>)
    requires
        contains(a, b),
        contains(b, c),
    ensures
        contains(a, c),
{
    let i = choose|i: int| occurs_at(a, b, i);
    let j = choose|j: int| occurs_at(b, c, j);
    assert(a.subrange(i + j, i + j + c.len()) =~= b.subrange(j, j + c.len()));
    assert(occurs_at(a, c, i + j));
}

/// Joining two non-empty runs of lines puts one `\n` between their joins.
pub proof fn lemma_join_split(x: Seq<Seq<u8>>, y: Seq<Seq<u8>>)
    requires
        x.len() > 0,
        y.len() > 0,
    ensures
        join_lines(x + y) == join_lines(x) + seq![NEWLINE] + join_lines(y),
    decreases y.len(),
{
    if y.len() == 1 {
        assert(x + y =~= x.push(y[0]));
        lemma_join_push(x, y[0]);
        assert(join_lines(y) == y[0]);
    } else {
        let y0 = y.drop_last();
        lemma_join_split(x, y0);
        assert(x + y =~= (x + y0).push(y.last()));
        lemma_join_push(x + y0, y.last());
        assert(y =~= y0.push(y.last()));
        lemma_join_push(y0, y.last());
        assert(join_lines(x) + seq![NEWLINE] + join_lines(y0) + seq![NEWLINE] + y.last() =~= join_lines(x)
            + seq![NEWLINE] + (join_lines(y0) + seq![NEWLINE] + y.last()));
    }
}

/// The join of a run of consecutive lines is contained in the join of all.
pub proof fn lemma_join_contains_run(ls: Seq<Seq<u8>>, a: int, b: int)
    requires
        0 <= a < b <= ls.len(),
    ensures
        contains(join_lines(ls), join_lines(ls.subrange(a, b))),
{
    let mid = ls.subrange(a, b);
    let upto = ls.subrange(0, b);
    if a > 0 {
        lemma_join_split(ls.subrange(0, a), mid);
        assert(ls.subrange(0, a) + mid =~= upto);
        lemma_contains_middle(join_lines(ls.subrange(0, a)) + seq![NEWLINE], join_lines(mid), seq![]);
        assert(join_lines(ls.subrange(0, a)) + seq![NEWLINE] + join_lines(mid) + seq![] =~= join_lines(
            upto,
        ));
    } else {
        assert(mid =~= upto);
        lemma_contains_middle(seq![], join_lines(mid), seq![]);
        assert(Seq::<u8>::empty() + join_lines(mid) + Seq::<u8>::empty() =~= join_lines(upto));
    }
    if b < ls.len() {
        let rest = ls.subrange(b, ls.len() as int);
        lemma_join_split(upto, rest);
        assert(upto + rest =~= ls);
        lemma_contains_middle(seq![], join_lines(upto), seq![NEWLINE] + join_lines(rest));
        assert(Seq::<u8>::empty() + join_lines(upto) + (seq![NEWLINE] + join_lines(rest)) =~= join_lines(
            ls,
        ));
        lemma_contains_trans(join_lines(ls), join_lines(upto), join_lines(mid));
    } else {
        assert(upto =~= ls);
    }
}

} // verus!
