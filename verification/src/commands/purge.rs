//! `output purge --expired`: the report of a purge.
use vstd::prelude::*;

use crate::text::{decimal_chars, push_u64_text};

verus! {

/// The line a purge prints: how many expired refs it removed.
pub fn purge_message(n: usize) -> (r: String)
    ensures
        r@ == "purged "@ + decimal_chars(n as nat) + " expired ref(s)\n"@,
{
    let mut s = String::from_str("purged ");
    push_u64_text(&mut s, n as u64);
    s.append(" expired ref(s)\n");
    s
}

} // verus!
