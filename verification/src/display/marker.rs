//! The marker appended to a specialised summary.
use vstd::prelude::*;
use vstd::string::StringSliceAdditionalSpecFns;

use crate::condenser::{line_count, lines_in};
use crate::text::{decimal, lit, push_decimal, push_str};
use crate::time::UtcTime;

verus! {

/// `[foldback ref=<ref> raw=<bytes>b lines=<n> view=<view> mode=summary recoverability=retrievable expires=<stamp>]\n`
///
/// `raw=` and `lines=` describe the raw capture; there is no `omitted=`.
#[verifier::opaque]
pub open spec fn specialized_marker(
    ref_id: Seq<u8>,
    raw: Seq<u8>,
    view: Seq<u8>,
    stamp: Seq<char>,
) -> Seq<u8> {
    lit("[foldback ref=") + ref_id + lit(" raw=") + decimal(raw.len()) + lit("b lines=") + decimal(
        lines_in(raw),
    ) + lit(" view=") + view + lit(" mode=summary recoverability=retrievable expires=")
        + vstd::utf8::encode_utf8(stamp) + lit("]\n")
}

/// Build the specialised marker for a non-generic reducer output.
pub fn build_specialized_marker(ref_id: &str, raw: &[u8], view: &str, expires_at: &UtcTime) -> (r:
    Vec<u8>)
    ensures
        r@ == specialized_marker(ref_id.spec_bytes(), raw@, view.spec_bytes(), expires_at.spec_stamp()),
{
    reveal(specialized_marker);
    let mut out: Vec<u8> = Vec::new();
    push_str(&mut out, "[foldback ref=");
    push_str(&mut out, ref_id);
    push_str(&mut out, " raw=");
    push_decimal(&mut out, raw.len() as u64);
    push_str(&mut out, "b lines=");
    push_decimal(&mut out, line_count(raw) as u64);
    push_str(&mut out, " view=");
    push_str(&mut out, view);
    push_str(&mut out, " mode=summary recoverability=retrievable expires=");
    let stamp = expires_at.stamp();
    push_str(&mut out, stamp.as_str());
    push_str(&mut out, "]\n");
    out
}

} // verus!
