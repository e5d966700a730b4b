//! The threshold above which output is condensed.
use vstd::prelude::*;

use crate::condenser::{line_count, over_threshold, CONDENSE_BYTE_THRESHOLD, CONDENSE_LINE_THRESHOLD};

verus! {

/// Return `true` when `data` exceeds the threshold that triggers condensing:
/// more than 10 KB or more than 100 lines.
pub fn exceeds_threshold(data: &[u8]) -> (r: bool)
    ensures
        r == over_threshold(data@),
{
    data.len() > CONDENSE_BYTE_THRESHOLD || line_count(data) > CONDENSE_LINE_THRESHOLD
}

} // verus!
