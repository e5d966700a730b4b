//! The rules of the output stash: ref handles, channels, integrity checks,
//! expiry, and the slicing, tailing and grepping of stored output.
use rand::Rng;
use sha2::Digest;
use vstd::prelude::*;
use vstd::string::StringSliceAdditionalSpecFns;

use crate::condenser::{pieces, pieces_from};
use crate::error::FoldbackError;
use crate::text::{
    bytes_eq, contains, contains_exec, copy_bytes, is_ascii_hexdigit, lit, next_index_of, occurs_at,
    next_index_of_exec, push_char, lemma_str_eq_bytes, NEWLINE,
};
use crate::time::UtcTime;

verus! {

broadcast use vstd::seq_lib::group_seq_properties;

/// Default TTL for stored refs: 7 days.
pub const DEFAULT_TTL_SECS: i64 = 604800;

/// Which captured stream a request reads.
#[derive(Debug, Clone, Copy, PartialEq, Eq, Structural)]
pub enum Channel {
    Stdout,
    Stderr,
    Both,
}

/// Arguments for saving a captured execution.
pub struct SaveArgs<'a> {
    pub command: &'a str,
    pub args: &'a [String],
    pub cwd: &'a str,
    pub exit_code: i32,
    pub stdout: &'a [u8],
    pub stderr: &'a [u8],
    pub ttl_secs: i64,
}

/// Metadata of a stored ref.
#[derive(Debug, Clone)]
pub struct EntryMeta {
    pub ref_id: String,
    pub command: String,
    pub args: Vec<String>,
    pub cwd: String,
    pub created_at_ms: i64,
    pub expires_at_ms: i64,
    pub exit_code: i32,
    pub stdout_size: i64,
    pub stderr_size: i64,
    pub stdout_sha256: String,
    pub stderr_sha256: String,
}

// ── channels ────────────────────────────────────────────────────────────────

/// The channel a name selects: `stdout`, `stderr` or `both`.
pub open spec fn channel_named(s: Seq<char>) -> Option<Channel> {
    if s == "stdout"@ {
        Some(Channel::Stdout)
    } else if s == "stderr"@ {
        Some(Channel::Stderr)
    } else if s == "both"@ {
        Some(Channel::Both)
    } else {
        None
    }
}

impl Channel {
    /// Parse a channel name; any other name is bad input.
    pub fn parse(s: &str) -> (r: Result<Channel, FoldbackError>)
        ensures
            match channel_named(s@) {
                Some(c) => r == Ok::<Channel, FoldbackError>(c),
                None => r matches Err(FoldbackError::BadInput(m)) && m@ == "unknown channel: "@ + s@,
            },
    {
        let b = s.as_bytes();
        proof {
            lemma_str_eq_bytes(s, "stdout");
            lemma_str_eq_bytes(s, "stderr");
            lemma_str_eq_bytes(s, "both");
        }
        if bytes_eq(b, "stdout".as_bytes()) {
            Ok(Channel::Stdout)
        } else if bytes_eq(b, "stderr".as_bytes()) {
            Ok(Channel::Stderr)
        } else if bytes_eq(b, "both".as_bytes()) {
            Ok(Channel::Both)
        } else {
            let mut m = String::from_str("unknown channel: ");
            m.append(s);
            Err(FoldbackError::BadInput(m))
        }
    }

    /// The variant name (`Stdout`, `Stderr`, `Both`).
    pub fn debug_name(&self) -> (r: &'static str)
        ensures
            r@ == match *self {
                Channel::Stdout => "Stdout"@,
                Channel::Stderr => "Stderr"@,
                Channel::Both => "Both"@,
            },
    {
        match self {
            Channel::Stdout => "Stdout",
            Channel::Stderr => "Stderr",
            Channel::Both => "Both",
        }
    }

    /// The file extension of the blob a channel reads (`Both` starts with stdout).
    pub fn blob_extension(&self) -> (r: &'static str)
        ensures
            r@ == match *self {
                Channel::Stderr => "stderr"@,
                _ => "stdout"@,
            },
    {
        match self {
            Channel::Stdout | Channel::Both => "stdout",
            Channel::Stderr => "stderr",
        }
    }
}

impl std::str::FromStr for Channel {
    type Err = FoldbackError;

    fn from_str(s: &str) -> (r: Result<Channel, FoldbackError>)
        ensures
            match channel_named(s@) {
                Some(c) => r == Ok::<Channel, FoldbackError>(c),
                None => r matches Err(FoldbackError::BadInput(m)) && m@ == "unknown channel: "@ + s@,
            },
    {
        Channel::parse(s)
    }
}

/// The file name of a ref's blob: `<ref_id>.<stdout|stderr>`.
pub fn blob_file_name(ref_id: &str, channel: Channel) -> (r: String)
    ensures
        r@ == ref_id@ + "."@ + channel.blob_extension_view(),
{
    let mut r = String::from_str(ref_id);
    r.append(".");
    r.append(channel.blob_extension());
    r
}

impl Channel {
    pub open spec fn blob_extension_view(self) -> Seq<char> {
        match self {
            Channel::Stderr => "stderr"@,
            _ => "stdout"@,
        }
    }
}

// ── ref ids ────────────────────────────────────────────────────────────────

/// A ref id is exactly 32 ASCII hex digits.
pub open spec fn valid_ref(b: Seq<u8>) -> bool {
    b.len() == 32 && forall|k: int| 0 <= k < b.len() ==> is_ascii_hexdigit(#[trigger] b[k])
}

/// Accept a ref id of exactly 32 ASCII hex digits; anything else is `InvalidRef`.
pub fn validate_ref_id(ref_id: &str) -> (r: Result<(), FoldbackError>)
    ensures
        r is Ok <==> valid_ref(ref_id.spec_bytes()),
        r matches Err(e) ==> e matches FoldbackError::InvalidRef { input } && input@ == ref_id@,
{
    let b = ref_id.as_bytes();
    let mut ok = b.len() == 32;
    let mut k: usize = 0;
    while ok && k < b.len()
        invariant
            k <= b.len(),
            ok ==> b@.len() == 32,
            ok ==> forall|m: int| 0 <= m < k ==> is_ascii_hexdigit(#[trigger] b@[m]),
            !ok ==> !valid_ref(b@),
        decreases b.len() - k + (if ok { 1int } else { 0int }),
    {
        let c = b[k];
        if !((48 <= c && c <= 57) || (65 <= c && c <= 70) || (97 <= c && c <= 102)) {
            ok = false;
        } else {
            k = k + 1;
        }
    }
    if ok {
        Ok(())
    } else {
        Err(FoldbackError::InvalidRef { input: ref_id.to_owned() })
    }
}

/// Lower-case hex digit for `v < 16`.
pub open spec fn hex_digit(v: int) -> char {
    if v < 10 {
        (48 + v) as char
    } else {
        (87 + v) as char
    }
}

/// Lower-case hex encoding, two digits per byte.
pub open spec fn hex_chars(b: Seq<u8>) -> Seq<char>
    decreases b.len(),
{
    if b.len() == 0 {
        seq![]
    } else {
        hex_chars(b.drop_last()) + seq![hex_digit((b.last() / 16) as int), hex_digit((b.last() % 16) as int)]
    }
}

fn hex_digit_exec(v: u8) -> (c: char)
    requires
        v < 16,
    ensures
        c == hex_digit(v as int),
{
    if v < 10 {
        (48 + v) as char
    } else {
        (87 + v) as char
    }
}

/// Lower-case hex encoding of `b` (`hex::encode`).
pub fn hex_encode(b: &[u8]) -> (r: String)
    ensures
        r@ == hex_chars(b@),
{
    let mut r = String::new();
    let mut i: usize = 0;
    while i < b.len()
        invariant
            i <= b.len(),
            r@ == hex_chars(b@.take(i as int)),
        decreases b.len() - i,
    {
        let v = b[i];
        push_char(&mut r, hex_digit_exec(v / 16));
        push_char(&mut r, hex_digit_exec(v % 16));
        assert(b@.take(i + 1).drop_last() =~= b@.take(i as int));
        i = i + 1;
    }
    assert(b@.take(b.len() as int) =~= b@);
    r
}

pub proof fn lemma_hex_chars_shape(b: Seq<u8>)
    ensures
        hex_chars(b).len() == 2 * b.len(),
        forall|k: int|
            0 <= k < hex_chars(b).len() ==> ('0' <= #[trigger] hex_chars(b)[k] <= '9' || 'a'
                <= hex_chars(b)[k] <= 'f'),
    decreases b.len(),
{
    if b.len() > 0 {
        lemma_hex_chars_shape(b.drop_last());
    }
}

/// The SHA-256 digest of `data`.
pub uninterp spec fn sha256(data: Seq<u8>) -> Seq<u8>;

/// Calls `sha2::Sha256::digest`. The contract claims that the result is the
/// named digest of the input, and that a SHA-256 digest has 32 bytes.
#[verifier::external_body]
fn sha256_digest(data: &[u8]) -> (r: Vec<u8>)
    ensures
        r@ == sha256(data@),
        r@.len() == 32,
{
    sha2::Sha256::digest(data).to_vec()
}

/// The SHA-256 digest of `data` as 64 lower-case hex digits.
pub fn sha256_hex(data: &[u8]) -> (r: String)
    ensures
        r@ == hex_chars(sha256(data@)),
{
    let d = sha256_digest(data);
    hex_encode(&d)
}

/// Calls `rand::thread_rng().gen::<[u8; 16]>()`. The contract claims only that
/// sixteen bytes come back; which bytes is chance.
#[verifier::external_body]
fn random_16_bytes() -> (r: Vec<u8>)
    ensures
        r@.len() == 16,
{
    let bytes: [u8; 16] = rand::thread_rng().gen();
    bytes.to_vec()
}

/// Text made of lower-case hex digits only.
pub open spec fn lower_hex_text(s: Seq<char>) -> bool {
    forall|k: int| 0 <= k < s.len() ==> ('0' <= #[trigger] s[k] <= '9' || 'a' <= s[k] <= 'f')
}

/// A fresh random ref id: 16 random bytes as 32 lower-case hex digits.
pub fn gen_ref_id() -> (r: String)
    ensures
        r@.len() == 32,
        lower_hex_text(r@),
        exists|b: Seq<u8>| b.len() == 16 && r@ == hex_chars(b),
        valid_ref(vstd::utf8::encode_utf8(r@)),
{
    let bytes = random_16_bytes();
    let r = hex_encode(&bytes);
    proof {
        lemma_hex_chars_shape(bytes@);
        assert(vstd::utf8::is_ascii_chars(r@));
        vstd::utf8::is_ascii_chars_encode_utf8(r@);
        let e = vstd::utf8::encode_utf8(r@);
        assert forall|k: int| 0 <= k < e.len() implies is_ascii_hexdigit(#[trigger] e[k]) by {
            assert(r@[k] as u8 == e[k]);
        }
        assert(r@ == hex_chars(bytes@));
    }
    r
}


// ── integrity and expiry ──────────────────────────────────────────────────

/// A blob is intact when its length and SHA-256 match what was recorded.
pub open spec fn blob_intact(data: Seq<u8>, expected_size: i64, expected_sha: Seq<char>) -> bool {
    data.len() as i64 == expected_size && hex_chars(sha256(data)) == expected_sha
}

/// Check a blob, whose SHA-256 was computed as `digest`, against its
/// recorded size and digest; a mismatch is `Corrupted`, naming the ref and
/// the channel.
pub fn check_blob_digest(
    ref_id: &str,
    channel: Channel,
    data: Vec<u8>,
    digest: &str,
    expected_size: i64,
    expected_sha: &str,
) -> (r: Result<Vec<u8>, FoldbackError>)
    ensures
        (data@.len() as i64 == expected_size && digest@ == expected_sha@) ==> (r matches Ok(v)
            && v@ == data@),
        !(data@.len() as i64 == expected_size && digest@ == expected_sha@) ==> (r matches Err(
            FoldbackError::Corrupted { ref_id: rid, channel: ch },
        ) && rid@ == ref_id@ && ch@ == channel.debug_name_view()),
{
    proof {
        lemma_str_eq_bytes(digest, expected_sha);
    }
    if data.len() as i64 != expected_size || !bytes_eq(digest.as_bytes(), expected_sha.as_bytes()) {
        return Err(corrupted(ref_id, channel));
    }
    Ok(data)
}

/// Check a blob against its recorded size and SHA-256; a mismatch is
/// `Corrupted`, naming the ref and the channel.
pub fn verify_blob(
    ref_id: &str,
    channel: Channel,
    data: Vec<u8>,
    expected_size: i64,
    expected_sha: &str,
) -> (r: Result<Vec<u8>, FoldbackError>)
    ensures
        blob_intact(data@, expected_size, expected_sha@) ==> (r matches Ok(v) && v@ == data@),
        !blob_intact(data@, expected_size, expected_sha@) ==> (r matches Err(
            FoldbackError::Corrupted { ref_id: rid, channel: ch },
        ) && rid@ == ref_id@ && ch@ == channel.debug_name_view()),
{
    let sha = sha256_hex(&data);
    check_blob_digest(ref_id, channel, data, sha.as_str(), expected_size, expected_sha)
}

impl Channel {
    pub open spec fn debug_name_view(self) -> Seq<char> {
        match self {
            Channel::Stdout => "Stdout"@,
            Channel::Stderr => "Stderr"@,
            Channel::Both => "Both"@,
        }
    }
}

fn corrupted(ref_id: &str, channel: Channel) -> (e: FoldbackError)
    ensures
        e matches FoldbackError::Corrupted { ref_id: rid, channel: ch } && rid@ == ref_id@ && ch@
            == channel.debug_name_view(),
{
    FoldbackError::Corrupted {
        ref_id: ref_id.to_owned(),
        channel: String::from_str(channel.debug_name()),
    }
}

/// A ref whose expiry lies before `now_ms` is `Expired`.
pub fn check_not_expired(ref_id: &str, expires_at_ms: i64, now_ms: i64) -> (r: Result<
    (),
    FoldbackError,
>)
    ensures
        r is Ok <==> expires_at_ms >= now_ms,
        r matches Err(e) ==> e matches FoldbackError::Expired { ref_id: rid } && rid@ == ref_id@,
{
    if expires_at_ms < now_ms {
        Err(FoldbackError::Expired { ref_id: ref_id.to_owned() })
    } else {
        Ok(())
    }
}

// ── reading stored output ────────────────────────────────────────────────────

/// `d[offset..]`, at most `limit` bytes of it; empty when the offset is past the end.
pub open spec fn sliced(d: Seq<u8>, offset: Option<u64>, limit: Option<u64>) -> Seq<u8> {
    let start = (match offset {
        Some(o) => o,
        None => 0u64,
    }) as usize;
    if start >= d.len() {
        seq![]
    } else {
        let tail = d.skip(start as int);
        match limit {
            Some(n) => tail.take(
                (if n <= tail.len() as u64 {
                    n
                } else {
                    tail.len() as u64
                }) as usize as int,
            ),
            None => tail,
        }
    }
}

/// Apply optional byte-offset and limit to an already-verified buffer.
pub fn apply_slice(data: Vec<u8>, offset: Option<u64>, limit: Option<u64>) -> (r: Vec<u8>)
    ensures
        r@ == sliced(data@, offset, limit),
{
    let start = match offset {
        Some(o) => o,
        None => 0,
    } as usize;
    if start >= data.len() {
        return Vec::new();
    }
    let tail_len = data.len() - start;
    let end = match limit {
        Some(n) => {
            let m = if n <= tail_len as u64 {
                n
            } else {
                tail_len as u64
            };
            start + m as usize
        },
        None => data.len(),
    };
    let r = copy_bytes(&data[start..end]);
    proof {
        let tail = data@.skip(start as int);
        match limit {
            Some(n) => {
                assert(data@.subrange(start as int, end as int) =~= tail.take(end - start));
            },
            None => {
                assert(data@.subrange(start as int, end as int) =~= tail);
            },
        }
    }
    r
}

/// The start of the last `n` lines within `d[..pos]`, having passed `count` newlines.
pub open spec fn tail_start(d: Seq<u8>, n: nat, pos: int, count: nat) -> int
    decreases pos,
{
    if pos <= 0 {
        0
    } else if d[pos - 1] == NEWLINE {
        if count + 1 == n {
            pos
        } else {
            tail_start(d, n, pos - 1, count + 1)
        }
    } else {
        tail_start(d, n, pos - 1, count)
    }
}

/// The last `n` newline-separated lines of `d` (a final `\n` is not a line break).
pub open spec fn last_lines(d: Seq<u8>, n: nat) -> Seq<u8> {
    if d.len() == 0 || n == 0 {
        seq![]
    } else {
        let end = if d.last() == NEWLINE {
            d.len() - 1
        } else {
            d.len() as int
        };
        d.skip(tail_start(d, n, end, 0))
    }
}

pub proof fn lemma_tail_start_bounds(d: Seq<u8>, n: nat, pos: int, count: nat)
    requires
        0 <= pos <= d.len(),
    ensures
        0 <= tail_start(d, n, pos, count) <= pos,
        tail_start(d, n, pos, count) == 0 || d[tail_start(d, n, pos, count) - 1] == NEWLINE,
    decreases pos,
{
    if pos > 0 {
        if d[pos - 1] == NEWLINE {
            if count + 1 != n {
                lemma_tail_start_bounds(d, n, pos - 1, count + 1);
            }
        } else {
            lemma_tail_start_bounds(d, n, pos - 1, count);
        }
    }
}

/// Return the last `n` newline-separated lines from `data`: always a suffix
/// of `data` that starts at the beginning of a line.
pub fn last_n_lines(data: &[u8], n: usize) -> (r: Vec<u8>)
    ensures
        r@ == last_lines(data@, n as nat),
        exists|k: int|
            0 <= k <= data@.len() && r@ == data@.skip(k) && (k == 0 || data@[k - 1] == NEWLINE
                || r@.len() == 0),
{
    if data.len() == 0 || n == 0 {
        assert(Seq::<u8>::empty() == data@.skip(data@.len() as int));
        return Vec::new();
    }
    let mut end = data.len();
    if data[end - 1] == NEWLINE {
        end = end - 1;
    }
    let mut count: usize = 0;
    let mut pos = end;
    let mut start: usize = 0;
    let mut done = false;
    let ghost e = end as int;
    while pos > 0 && !done
        invariant
            pos <= end <= data.len(),
            e == end,
            start <= data.len(),
            !done ==> count < n && start == 0 && tail_start(data@, n as nat, e, 0) == tail_start(
                data@,
                n as nat,
                pos as int,
                count as nat,
            ),
            done ==> tail_start(data@, n as nat, e, 0) == start,
        decreases pos,
    {
        pos = pos - 1;
        if data[pos] == NEWLINE {
            count = count + 1;
            if count == n {
                start = pos + 1;
                done = true;
            }
        }
    }
    proof {
        lemma_tail_start_bounds(data@, n as nat, e, 0);
    }
    let pos = start;
    let r = copy_bytes(&data[pos..data.len()]);
    assert(r@ =~= data@.skip(pos as int));
    r
}

/// `line` contains the bytes of `pattern`.
pub open spec fn line_matches(line: Seq<u8>, pattern: Seq<u8>) -> bool {
    contains(line, pattern)
}

/// Whether `line` contains the bytes of `pattern` as one contiguous run,
/// UTF-8 or not; the empty pattern is in every line.
pub fn matches_pattern(line: &[u8], pattern: &str) -> (r: bool)
    ensures
        r == line_matches(line@, pattern.spec_bytes()),
{
    contains_exec(line, pattern.as_bytes())
}

/// The matching lines among the first `n`, one after the other.
pub open spec fn grep_upto(ls: Seq<Seq<u8>>, pattern: Seq<u8>, n: int) -> Seq<u8>
    decreases n,
{
    if n <= 0 {
        seq![]
    } else {
        grep_upto(ls, pattern, n - 1) + if line_matches(ls[n - 1], pattern) {
            ls[n - 1]
        } else {
            Seq::empty()
        }
    }
}

/// The lines of `d` (each with its `\n`) that contain `pattern`, in order.
pub open spec fn grep_result(d: Seq<u8>, pattern: Seq<u8>) -> Seq<u8> {
    grep_upto(pieces(d), pattern, pieces(d).len() as int)
}

/// The first `n` lines, one after the other.
pub open spec fn joined_upto(ls: Seq<Seq<u8>>, n: int) -> Seq<u8>
    decreases n,
{
    if n <= 0 {
        seq![]
    } else {
        joined_upto(ls, n - 1) + ls[n - 1]
    }
}

proof fn lemma_joined_prepend(x: Seq<u8>, rest: Seq<Seq<u8>>, n: int)
    requires
        0 <= n <= rest.len(),
    ensures
        joined_upto(seq![x] + rest, n + 1) == x + joined_upto(rest, n),
    decreases n,
{
    let all = seq![x] + rest;
    if n == 0 {
        assert(all[0] == x);
        assert(joined_upto(all, 0) == Seq::<u8>::empty());
        assert(Seq::<u8>::empty() + x =~= x + Seq::<u8>::empty());
    } else {
        lemma_joined_prepend(x, rest, n - 1);
        assert(all[n] == rest[n - 1]);
        assert(joined_upto(all, n + 1) == joined_upto(all, n) + all[n]);
        assert((x + joined_upto(rest, n - 1)) + rest[n - 1] =~= x + (joined_upto(rest, n - 1)
            + rest[n - 1]));
    }
}

/// The lines of `d` from byte `i` on, joined again, are `d[i..]`.
proof fn lemma_pieces_rejoin(d: Seq<u8>, i: int)
    requires
        0 <= i <= d.len(),
    ensures
        joined_upto(pieces_from(d, i), pieces_from(d, i).len() as int) == d.subrange(
            i,
            d.len() as int,
        ),
    decreases d.len() - i,
{
    if i >= d.len() {
        assert(d.subrange(i, d.len() as int) =~= Seq::<u8>::empty());
    } else {
        let j = next_index_of(d, NEWLINE, i);
        crate::text::lemma_next_index_of_bounds(d, NEWLINE, i);
        if j >= d.len() {
            let ps = pieces_from(d, i);
            assert(ps == seq![d.subrange(i, d.len() as int)]);
            assert(joined_upto(ps, 0) == Seq::<u8>::empty());
            assert(Seq::<u8>::empty() + d.subrange(i, d.len() as int) =~= d.subrange(
                i,
                d.len() as int,
            ));
        } else {
            let rest = pieces_from(d, j + 1);
            lemma_pieces_rejoin(d, j + 1);
            lemma_joined_prepend(d.subrange(i, j + 1), rest, rest.len() as int);
            assert(pieces_from(d, i) == seq![d.subrange(i, j + 1)] + rest);
            assert(d.subrange(i, j + 1) + d.subrange(j + 1, d.len() as int) =~= d.subrange(
                i,
                d.len() as int,
            ));
        }
    }
}

/// Every line contains the empty pattern.
proof fn lemma_grep_empty_upto(ls: Seq<Seq<u8>>, n: int)
    requires
        0 <= n <= ls.len(),
    ensures
        grep_upto(ls, seq![], n) == joined_upto(ls, n),
    decreases n,
{
    if n > 0 {
        lemma_grep_empty_upto(ls, n - 1);
        assert(ls[n - 1].subrange(0, 0) =~= Seq::<u8>::empty());
        assert(occurs_at(ls[n - 1], seq![], 0));
        assert(line_matches(ls[n - 1], seq![]));
    }
}

/// Grep with the empty pattern gives back every line, that is, the whole
/// output unchanged, UTF-8 or not.
pub proof fn law_grep_empty_pattern_keeps_everything(d: Seq<u8>)
    ensures
        grep_result(d, seq![]) == d,
{
    lemma_grep_empty_upto(pieces(d), pieces(d).len() as int);
    lemma_pieces_rejoin(d, 0);
    assert(d.subrange(0, d.len() as int) =~= d);
}

/// Return the lines of `data` (with their line breaks) that contain `pattern`.
pub fn grep_bytes(data: &[u8], pattern: &str) -> (r: Vec<u8>)
    ensures
        r@ == grep_result(data@, pattern.spec_bytes()),
{
    let p = pattern.as_bytes();
    let ghost ls = pieces(data@);
    let mut out: Vec<u8> = Vec::new();
    let mut start: usize = 0;
    let ghost mut k: int = 0;
    while start < data.len()
        invariant
            start <= data.len(),
            p@ == pattern.spec_bytes(),
            ls == pieces(data@),
            0 <= k <= ls.len(),
            ls.subrange(k, ls.len() as int) == pieces_from(data@, start as int),
            out@ == grep_upto(ls, p@, k),
        decreases data.len() - start,
    {
        let j = next_index_of_exec(data, NEWLINE, start);
        let end = if j < data.len() {
            j + 1
        } else {
            j
        };
        let line = &data[start..end];
        proof {
            assert(pieces_from(data@, start as int)[0] == line@);
            assert(pieces_from(data@, start as int).len() > 0);
            assert(k < ls.len());
            assert(ls.subrange(k, ls.len() as int)[0] == ls[k]);
        }
        if contains_exec(line, p) {
            out.extend_from_slice(line);
        }
        proof {
            assert(ls.subrange(k + 1, ls.len() as int) =~= ls.subrange(k, ls.len() as int).drop_first());
            if j >= data.len() {
                assert(pieces_from(data@, end as int) =~= Seq::<Seq<u8>>::empty());
            }
            k = k + 1;
        }
        start = end;
    }
    proof {
        assert(pieces_from(data@, start as int) =~= Seq::<Seq<u8>>::empty());
        assert(ls.subrange(k, ls.len() as int).len() == 0);
    }
    out
}


// ── saving ──────────────────────────────────────────────────────────────────

/// The views of a list of strings.
pub open spec fn texts(v: Seq<String>) -> Seq<Seq<char>> {
    v.map_values(|x: String| x@)
}

/// The JSON text `serde_json` writes for a list of strings; `None` where it fails.
pub uninterp spec fn json_of_strings(items: Seq<Seq<char>>) -> Option<Seq<char>>;

/// Calls `serde_json::to_string` on a slice of strings. The contract claims
/// that the outcome is the named function of the strings, that writing a
/// list of strings does not fail, and that `serde_json` reads the text it
/// wrote back as the same strings.
#[verifier::external_body]
fn encode_json_strings(items: &[String]) -> (r: Option<String>)
    ensures
        match r {
            Some(t) => json_of_strings(texts(items@)) == Some(t@),
            None => json_of_strings(texts(items@)) is None,
        },
        r is Some,
        r matches Some(t) ==> strings_of_json(t@) == Some(texts(items@)),
{
    match serde_json::to_string(items) {
        Ok(t) => Some(t),
        Err(_) => None,
    }
}

/// The list of strings `serde_json` reads from a JSON text; `None` where it fails.
pub uninterp spec fn strings_of_json(text: Seq<char>) -> Option<Seq<Seq<char>>>;

/// Calls `serde_json::from_str::<Vec<String>>`. The contract claims only that
/// the outcome is the named function of the text.
#[verifier::external_body]
fn decode_json_strings(text: &str) -> (r: Option<Vec<String>>)
    ensures
        match r {
            Some(v) => strings_of_json(text@) == Some(texts(v@)),
            None => strings_of_json(text@) is None,
        },
{
    match serde_json::from_str::<Vec<String>>(text) {
        Ok(v) => Some(v),
        Err(_) => None,
    }
}

/// The stored form of a command's arguments: their JSON text, or empty text
/// where encoding fails.
pub open spec fn args_json_text(args: Seq<Seq<char>>) -> Seq<char> {
    match json_of_strings(args) {
        Some(t) => t,
        None => Seq::empty(),
    }
}

/// The arguments read back from their stored text: none where it does not decode.
pub open spec fn args_from_json(text: Seq<char>) -> Seq<Seq<char>> {
    match strings_of_json(text) {
        Some(v) => v,
        None => Seq::empty(),
    }
}

/// What a save records of a capture besides the bytes themselves.
pub struct SaveRecord {
    pub ref_id: String,
    pub created_at_ms: i64,
    pub expires_at: UtcTime,
    pub args_json: String,
    pub stdout_size: i64,
    pub stderr_size: i64,
    pub stdout_sha256: String,
    pub stderr_sha256: String,
}

impl SaveRecord {
    /// The sizes and digests recorded are those of `stdout` and `stderr`.
    pub open spec fn describes(self, stdout: Seq<u8>, stderr: Seq<u8>) -> bool {
        &&& self.stdout_size == stdout.len()
        &&& self.stderr_size == stderr.len()
        &&& self.stdout_sha256@ == hex_chars(sha256(stdout))
        &&& self.stderr_sha256@ == hex_chars(sha256(stderr))
    }
}

/// The expiry of a capture saved at `now_ms` for `ttl_secs` seconds.
pub open spec fn expiry_millis(now_ms: i64, ttl_secs: i64) -> int {
    now_ms + ttl_secs * 1000
}

/// The TTL is a duration `chrono` accepts (its milliseconds fit in an
/// `i64`), and `chrono` can represent the expiry it leads to.
pub open spec fn expiry_representable(now_ms: i64, ttl_secs: i64) -> bool {
    &&& i64::MIN <= ttl_secs * 1000 <= i64::MAX
    &&& i64::MIN <= expiry_millis(now_ms, ttl_secs) <= i64::MAX
    &&& crate::time::utc_second_stamp(expiry_millis(now_ms, ttl_secs) as i64) is Some
}

/// Everything a save stores besides the blobs, under the ref `ref_id`: the
/// creation and expiry instants, the arguments as JSON, and the size and
/// SHA-256 of each stream. `None` exactly when the expiry cannot be
/// represented.
pub fn save_record(a: &SaveArgs, now_ms: i64, ref_id: String) -> (r: Option<SaveRecord>)
    requires
        a.stdout@.len() <= i64::MAX,
        a.stderr@.len() <= i64::MAX,
    ensures
        r is Some <==> expiry_representable(now_ms, a.ttl_secs),
        r matches Some(rec) ==> {
            &&& rec.ref_id == ref_id
            &&& rec.created_at_ms == now_ms
            &&& rec.expires_at.spec_millis() == expiry_millis(now_ms, a.ttl_secs)
            &&& rec.args_json@ == args_json_text(texts(a.args@))
            &&& strings_of_json(rec.args_json@) == Some(texts(a.args@))
            &&& rec.describes(a.stdout@, a.stderr@)
        },
{
    let expires_ms = match a.ttl_secs.checked_mul(1000) {
        Some(d) => match now_ms.checked_add(d) {
            Some(e) => e,
            None => {
                return None;
            },
        },
        None => {
            return None;
        },
    };
    let expires_at = match UtcTime::from_millis(expires_ms) {
        Some(t) => t,
        None => {
            return None;
        },
    };
    let args_json = match encode_json_strings(a.args) {
        Some(t) => t,
        None => String::new(),
    };
    Some(SaveRecord {
        ref_id,
        created_at_ms: now_ms,
        expires_at,
        args_json,
        stdout_size: a.stdout.len() as i64,
        stderr_size: a.stderr.len() as i64,
        stdout_sha256: sha256_hex(a.stdout),
        stderr_sha256: sha256_hex(a.stderr),
    })
}

/// What a save stores besides the blobs, under a fresh random ref.
pub fn prepare_save(a: &SaveArgs, now_ms: i64) -> (r: Option<SaveRecord>)
    requires
        a.stdout@.len() <= i64::MAX,
        a.stderr@.len() <= i64::MAX,
    ensures
        r is Some <==> expiry_representable(now_ms, a.ttl_secs),
        r matches Some(rec) ==> {
            &&& rec.ref_id@.len() == 32
            &&& lower_hex_text(rec.ref_id@)
            &&& exists|b: Seq<u8>| b.len() == 16 && rec.ref_id@ == hex_chars(b)
            &&& valid_ref(vstd::utf8::encode_utf8(rec.ref_id@))
            &&& rec.created_at_ms == now_ms
            &&& rec.expires_at.spec_millis() == expiry_millis(now_ms, a.ttl_secs)
            &&& rec.args_json@ == args_json_text(texts(a.args@))
            &&& strings_of_json(rec.args_json@) == Some(texts(a.args@))
            &&& rec.describes(a.stdout@, a.stderr@)
        },
{
    save_record(a, now_ms, gen_ref_id())
}

// ── looking up ──────────────────────────────────────────────────────────────

/// A row of the ref table as stored.
pub struct StoredRow {
    pub command: String,
    pub args_json: String,
    pub cwd: String,
    pub created_at_ms: i64,
    pub expires_at_ms: i64,
    pub exit_code: i32,
    pub stdout_size: i64,
    pub stderr_size: i64,
    pub stdout_sha256: String,
    pub stderr_sha256: String,
}

/// `m` is the metadata of `ref_id` that row `w` holds.
pub open spec fn meta_of_row(m: EntryMeta, ref_id: Seq<char>, w: StoredRow) -> bool {
    &&& m.ref_id@ == ref_id
    &&& m.command@ == w.command@
    &&& texts(m.args@) == args_from_json(w.args_json@)
    &&& m.cwd@ == w.cwd@
    &&& m.created_at_ms == w.created_at_ms
    &&& m.expires_at_ms == w.expires_at_ms
    &&& m.exit_code == w.exit_code
    &&& m.stdout_size == w.stdout_size
    &&& m.stderr_size == w.stderr_size
    &&& m.stdout_sha256@ == w.stdout_sha256@
    &&& m.stderr_sha256@ == w.stderr_sha256@
}

/// The metadata of `ref_id` from its row, if the table has one, at time
/// `now_ms`: `NotFound` without a row, `Expired` once its expiry has passed.
pub fn entry_from_row(ref_id: &str, row: Option<StoredRow>, now_ms: i64) -> (r: Result<
    EntryMeta,
    FoldbackError,
>)
    ensures
        row is None ==> (r matches Err(FoldbackError::NotFound { ref_id: rid }) && rid@ == ref_id@),
        row is Some && row.unwrap().expires_at_ms < now_ms ==> (r matches Err(
            FoldbackError::Expired { ref_id: rid },
        ) && rid@ == ref_id@),
        row is Some && row.unwrap().expires_at_ms >= now_ms ==> (r matches Ok(m) && meta_of_row(
            m,
            ref_id@,
            row.unwrap(),
        )),
{
    let w = match row {
        None => {
            return Err(FoldbackError::NotFound { ref_id: ref_id.to_owned() });
        },
        Some(w) => w,
    };
    if let Err(e) = check_not_expired(ref_id, w.expires_at_ms, now_ms) {
        return Err(e);
    }
    let args = match decode_json_strings(w.args_json.as_str()) {
        Some(v) => v,
        None => Vec::new(),
    };
    assert(texts(args@) =~= args_from_json(w.args_json@));
    Ok(EntryMeta {
        ref_id: ref_id.to_owned(),
        command: w.command,
        args,
        cwd: w.cwd,
        created_at_ms: w.created_at_ms,
        expires_at_ms: w.expires_at_ms,
        exit_code: w.exit_code,
        stdout_size: w.stdout_size,
        stderr_size: w.stderr_size,
        stdout_sha256: w.stdout_sha256,
        stderr_sha256: w.stderr_sha256,
    })
}

// ── reading blobs back ─────────────────────────────────────────────────────

/// The blob was read and matches its recorded size and digest.
pub open spec fn blob_ok(blob: Result<Vec<u8>, std::io::Error>, size: i64, sha: Seq<char>) -> bool {
    blob matches Ok(d) && blob_intact(d@, size, sha)
}

/// The bytes read, if any.
pub open spec fn blob_data(blob: Result<Vec<u8>, std::io::Error>) -> Seq<u8> {
    match blob {
        Ok(d) => d@,
        Err(_) => Seq::empty(),
    }
}

/// The error for a blob that could not be used: the read's own error, or
/// `Corrupted` naming the ref and the channel.
pub open spec fn blob_failure(
    e: FoldbackError,
    ref_id: Seq<char>,
    channel: Channel,
    blob: Result<Vec<u8>, std::io::Error>,
) -> bool {
    match blob {
        Err(x) => e == FoldbackError::Io(x),
        Ok(_) => e matches FoldbackError::Corrupted { ref_id: rid, channel: ch } && rid@ == ref_id
            && ch@ == channel.debug_name_view(),
    }
}

/// Every blob that `channel` reads is there and intact.
pub open spec fn channel_ok(
    channel: Channel,
    meta: EntryMeta,
    stdout_blob: Result<Vec<u8>, std::io::Error>,
    stderr_blob: Result<Vec<u8>, std::io::Error>,
) -> bool {
    let out_ok = blob_ok(stdout_blob, meta.stdout_size, meta.stdout_sha256@);
    let err_ok = blob_ok(stderr_blob, meta.stderr_size, meta.stderr_sha256@);
    match channel {
        Channel::Stdout => out_ok,
        Channel::Stderr => err_ok,
        Channel::Both => out_ok && err_ok,
    }
}

/// What `channel` reads: stdout, stderr, or stdout followed by stderr.
pub open spec fn channel_content(
    channel: Channel,
    stdout_blob: Result<Vec<u8>, std::io::Error>,
    stderr_blob: Result<Vec<u8>, std::io::Error>,
) -> Seq<u8> {
    match channel {
        Channel::Stdout => blob_data(stdout_blob),
        Channel::Stderr => blob_data(stderr_blob),
        Channel::Both => blob_data(stdout_blob) + blob_data(stderr_blob),
    }
}

/// The error of a failed read: that of the first blob, in the order stdout
/// then stderr, that is missing or damaged.
pub open spec fn channel_failure(
    e: FoldbackError,
    ref_id: Seq<char>,
    channel: Channel,
    meta: EntryMeta,
    stdout_blob: Result<Vec<u8>, std::io::Error>,
    stderr_blob: Result<Vec<u8>, std::io::Error>,
) -> bool {
    match channel {
        Channel::Stdout => blob_failure(e, ref_id, Channel::Stdout, stdout_blob),
        Channel::Stderr => blob_failure(e, ref_id, Channel::Stderr, stderr_blob),
        Channel::Both => if !blob_ok(stdout_blob, meta.stdout_size, meta.stdout_sha256@) {
            blob_failure(e, ref_id, Channel::Stdout, stdout_blob)
        } else {
            blob_failure(e, ref_id, Channel::Stderr, stderr_blob)
        },
    }
}

/// Check one blob as read from disk against its recorded size and digest.
pub fn checked_blob(
    ref_id: &str,
    channel: Channel,
    blob: Result<Vec<u8>, std::io::Error>,
    size: i64,
    sha: &str,
) -> (r: Result<Vec<u8>, FoldbackError>)
    ensures
        r is Ok <==> blob_ok(blob, size, sha@),
        r matches Ok(v) ==> v@ == blob_data(blob),
        r matches Err(e) ==> blob_failure(e, ref_id@, channel, blob),
{
    match blob {
        Err(x) => Err(FoldbackError::Io(x)),
        Ok(d) => verify_blob(ref_id, channel, d, size, sha),
    }
}

/// The verified bytes of `channel`, from the blobs as read: each blob that
/// the channel reads is checked, stdout before stderr, and for `Both` the two
/// are joined.
pub fn channel_data(
    ref_id: &str,
    channel: Channel,
    meta: &EntryMeta,
    stdout_blob: Result<Vec<u8>, std::io::Error>,
    stderr_blob: Result<Vec<u8>, std::io::Error>,
) -> (r: Result<Vec<u8>, FoldbackError>)
    ensures
        r is Ok <==> channel_ok(channel, *meta, stdout_blob, stderr_blob),
        r matches Ok(v) ==> v@ == channel_content(channel, stdout_blob, stderr_blob),
        r matches Err(e) ==> channel_failure(e, ref_id@, channel, *meta, stdout_blob, stderr_blob),
{
    match channel {
        Channel::Stdout => checked_blob(
            ref_id,
            Channel::Stdout,
            stdout_blob,
            meta.stdout_size,
            meta.stdout_sha256.as_str(),
        ),
        Channel::Stderr => checked_blob(
            ref_id,
            Channel::Stderr,
            stderr_blob,
            meta.stderr_size,
            meta.stderr_sha256.as_str(),
        ),
        Channel::Both => {
            let mut out = checked_blob(
                ref_id,
                Channel::Stdout,
                stdout_blob,
                meta.stdout_size,
                meta.stdout_sha256.as_str(),
            )?;
            let err = checked_blob(
                ref_id,
                Channel::Stderr,
                stderr_blob,
                meta.stderr_size,
                meta.stderr_sha256.as_str(),
            )?;
            out.extend_from_slice(&err);
            Ok(out)
        },
    }
}

/// The verified bytes of `channel`, sliced by byte offset and limit.
pub fn read_channel_bytes(
    ref_id: &str,
    channel: Channel,
    meta: &EntryMeta,
    stdout_blob: Result<Vec<u8>, std::io::Error>,
    stderr_blob: Result<Vec<u8>, std::io::Error>,
    offset: Option<u64>,
    limit: Option<u64>,
) -> (r: Result<Vec<u8>, FoldbackError>)
    ensures
        r is Ok <==> channel_ok(channel, *meta, stdout_blob, stderr_blob),
        r matches Ok(v) ==> v@ == sliced(
            channel_content(channel, stdout_blob, stderr_blob),
            offset,
            limit,
        ),
        r matches Err(e) ==> channel_failure(e, ref_id@, channel, *meta, stdout_blob, stderr_blob),
{
    let full = channel_data(ref_id, channel, meta, stdout_blob, stderr_blob)?;
    Ok(apply_slice(full, offset, limit))
}

/// The last `n` lines of the verified bytes of `channel`.
pub fn tail_channel_bytes(
    ref_id: &str,
    channel: Channel,
    meta: &EntryMeta,
    stdout_blob: Result<Vec<u8>, std::io::Error>,
    stderr_blob: Result<Vec<u8>, std::io::Error>,
    n: usize,
) -> (r: Result<Vec<u8>, FoldbackError>)
    ensures
        r is Ok <==> channel_ok(channel, *meta, stdout_blob, stderr_blob),
        r matches Ok(v) ==> v@ == last_lines(channel_content(channel, stdout_blob, stderr_blob), n as nat),
        r matches Err(e) ==> channel_failure(e, ref_id@, channel, *meta, stdout_blob, stderr_blob),
{
    let data = channel_data(ref_id, channel, meta, stdout_blob, stderr_blob)?;
    Ok(last_n_lines(&data, n))
}

/// The lines of the verified bytes of `channel` that contain `pattern`.
pub fn grep_channel_bytes(
    ref_id: &str,
    channel: Channel,
    meta: &EntryMeta,
    stdout_blob: Result<Vec<u8>, std::io::Error>,
    stderr_blob: Result<Vec<u8>, std::io::Error>,
    pattern: &str,
) -> (r: Result<Vec<u8>, FoldbackError>)
    ensures
        r is Ok <==> channel_ok(channel, *meta, stdout_blob, stderr_blob),
        r matches Ok(v) ==> v@ == grep_result(
            channel_content(channel, stdout_blob, stderr_blob),
            pattern.spec_bytes(),
        ),
        r matches Err(e) ==> channel_failure(e, ref_id@, channel, *meta, stdout_blob, stderr_blob),
{
    let data = channel_data(ref_id, channel, meta, stdout_blob, stderr_blob)?;
    Ok(grep_bytes(&data, pattern))
}


/// A saved capture reads back byte for byte: when the metadata holds the
/// sizes and digests that `prepare_save` recorded and the blobs read from
/// disk are the bytes that were saved, every channel passes its integrity
/// check, and a read without offset or limit gives exactly stdout, stderr,
/// or stdout followed by stderr.
pub proof fn law_saved_capture_reads_back(
    rec: SaveRecord,
    meta: EntryMeta,
    stdout: Seq<u8>,
    stderr: Seq<u8>,
    stdout_blob: Result<Vec<u8>, std::io::Error>,
    stderr_blob: Result<Vec<u8>, std::io::Error>,
    channel: Channel,
)
    requires
        rec.describes(stdout, stderr),
        meta.stdout_size == rec.stdout_size,
        meta.stderr_size == rec.stderr_size,
        meta.stdout_sha256@ == rec.stdout_sha256@,
        meta.stderr_sha256@ == rec.stderr_sha256@,
        blob_data(stdout_blob) == stdout && stdout_blob is Ok,
        blob_data(stderr_blob) == stderr && stderr_blob is Ok,
    ensures
        channel_ok(channel, meta, stdout_blob, stderr_blob),
        sliced(channel_content(channel, stdout_blob, stderr_blob), None, None) == match channel {
            Channel::Stdout => stdout,
            Channel::Stderr => stderr,
            Channel::Both => stdout + stderr,
        },
{
    let c = channel_content(channel, stdout_blob, stderr_blob);
    if c.len() > 0 {
        assert(c.skip(0) =~= c);
    }
}


/// Metadata read back from the row that a save recorded holds what was
/// saved: the command, its arguments, the working directory, the exit code,
/// the size and SHA-256 of each stream, and an expiry `ttl_secs` seconds
/// after creation.
pub proof fn law_saved_metadata_reads_back(
    a: SaveArgs,
    now_ms: i64,
    rec: SaveRecord,
    w: StoredRow,
    m: EntryMeta,
)
    requires
        rec.created_at_ms == now_ms,
        rec.expires_at.spec_millis() == expiry_millis(now_ms, a.ttl_secs),
        rec.args_json@ == args_json_text(texts(a.args@)),
        rec.describes(a.stdout@, a.stderr@),
        strings_of_json(rec.args_json@) == Some(texts(a.args@)),
        w.command@ == a.command@,
        w.args_json@ == rec.args_json@,
        w.cwd@ == a.cwd@,
        w.created_at_ms == rec.created_at_ms,
        w.expires_at_ms == rec.expires_at.spec_millis(),
        w.exit_code == a.exit_code,
        w.stdout_size == rec.stdout_size,
        w.stderr_size == rec.stderr_size,
        w.stdout_sha256@ == rec.stdout_sha256@,
        w.stderr_sha256@ == rec.stderr_sha256@,
        meta_of_row(m, rec.ref_id@, w),
    ensures
        m.ref_id@ == rec.ref_id@,
        m.command@ == a.command@,
        texts(m.args@) == texts(a.args@),
        m.cwd@ == a.cwd@,
        m.exit_code == a.exit_code,
        m.stdout_size == a.stdout@.len(),
        m.stderr_size == a.stderr@.len(),
        m.stdout_sha256@ == hex_chars(sha256(a.stdout@)),
        m.stderr_sha256@ == hex_chars(sha256(a.stderr@)),
        m.expires_at_ms - m.created_at_ms == a.ttl_secs * 1000,
{
}

} // verus!
