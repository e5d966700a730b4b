//! `output info <ref>`: the metadata of a ref as text.
use vstd::prelude::*;

use crate::stash::{texts, EntryMeta};
use crate::text::{push_i64_text, signed_text};
use crate::time::{stamp_or_unknown, utc_second_stamp};

verus! {

/// The parts joined with `sep` between them (`[String]::join`).
pub open spec fn joined(parts: Seq<Seq<char>>, sep: Seq<char>) -> Seq<char>
    decreases parts.len(),
{
    if parts.len() == 0 {
        Seq::empty()
    } else if parts.len() == 1 {
        parts[0]
    } else {
        joined(parts.drop_last(), sep) + sep + parts.last()
    }
}

/// An instant as the info text shows it: its stamp, or `?`.
pub open spec fn stamp_text(millis: i64) -> Seq<char> {
    match utc_second_stamp(millis) {
        Some(s) => s,
        None => "?"@,
    }
}

/// The info text of a ref: one `name: value` line per field.
pub open spec fn info_view(m: EntryMeta) -> Seq<char> {
    "ref:          "@ + m.ref_id@ + "\n"@ + "command:      "@ + m.command@ + " "@ + joined(
        texts(m.args@),
        " "@,
    ) + "\n"@ + "cwd:          "@ + m.cwd@ + "\n"@ + "exit_code:    "@ + signed_text(
        m.exit_code as int,
    ) + "\n"@ + "created_at:   "@ + stamp_text(m.created_at_ms) + "\n"@ + "expires_at:   "@
        + stamp_text(m.expires_at_ms) + "\n"@ + "stdout_size:  "@ + signed_text(
        m.stdout_size as int,
    ) + " bytes\n"@ + "stderr_size:  "@ + signed_text(m.stderr_size as int) + " bytes\n"@
        + "stdout_sha256: "@ + m.stdout_sha256@ + "\n"@ + "stderr_sha256: "@ + m.stderr_sha256@
        + "\n"@
}

/// Appends the strings of `parts`, with a space between each two.
fn push_joined(s: &mut String, parts: &Vec<String>)
    ensures
        final(s)@ == old(s)@ + joined(texts(parts@), " "@),
{
    let ghost start = s@;
    let mut k: usize = 0;
    while k < parts.len()
        invariant
            k <= parts.len(),
            s@ == start + joined(texts(parts@.take(k as int)), " "@),
        decreases parts.len() - k,
    {
        let ghost before = s@;
        if k > 0 {
            s.append(" ");
        }
        s.append(parts[k].as_str());
        proof {
            let t = texts(parts@.take(k + 1));
            assert(t.drop_last() =~= texts(parts@.take(k as int)));
            assert(t.last() == parts@[k as int]@);
            if k == 0 {
                assert(joined(texts(parts@.take(0)), " "@) =~= Seq::<char>::empty());
            }
        }
        k = k + 1;
    }
    assert(parts@.take(parts.len() as int) =~= parts@);
}

/// The info text of a ref's metadata.
pub fn info_text(m: &EntryMeta) -> (r: String)
    ensures
        r@ == info_view(*m),
{
    let mut s = String::from_str("ref:          ");
    s.append(m.ref_id.as_str());
    s.append("\n");
    s.append("command:      ");
    s.append(m.command.as_str());
    s.append(" ");
    push_joined(&mut s, &m.args);
    s.append("\n");
    s.append("cwd:          ");
    s.append(m.cwd.as_str());
    s.append("\n");
    s.append("exit_code:    ");
    push_i64_text(&mut s, m.exit_code as i64);
    s.append("\n");
    s.append("created_at:   ");
    let created = stamp_or_unknown(m.created_at_ms);
    s.append(created.as_str());
    s.append("\n");
    s.append("expires_at:   ");
    let expires = stamp_or_unknown(m.expires_at_ms);
    s.append(expires.as_str());
    s.append("\n");
    s.append("stdout_size:  ");
    push_i64_text(&mut s, m.stdout_size);
    s.append(" bytes\n");
    s.append("stderr_size:  ");
    push_i64_text(&mut s, m.stderr_size);
    s.append(" bytes\n");
    s.append("stdout_sha256: ");
    s.append(m.stdout_sha256.as_str());
    s.append("\n");
    s.append("stderr_sha256: ");
    s.append(m.stderr_sha256.as_str());
    s.append("\n");
    s
}

} // verus!
