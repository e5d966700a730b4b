//! UTC instants as the library reads them: milliseconds since the Unix epoch,
//! shown as `YYYY-MM-DDTHH:MM:SSZ`.
use std::fmt::Write;
use vstd::prelude::*;

verus! {

/// The text `chrono` writes for the UTC instant `millis` milliseconds after
/// the Unix epoch with the strftime-style format `fmt`; `None` when `chrono`
/// cannot represent that instant or cannot render the format.
pub uninterp spec fn utc_formatted(millis: i64, fmt: Seq<char>) -> Option<Seq<char>>;

/// The format of a stamp: `YYYY-MM-DDTHH:MM:SSZ`.
pub const STAMP_FORMAT: &'static str = "%Y-%m-%dT%H:%M:%SZ";

/// The stamp of the instant `millis` milliseconds after the Unix epoch;
/// `None` when `chrono` cannot represent that instant.
pub open spec fn utc_second_stamp(millis: i64) -> Option<Seq<char>> {
    utc_formatted(millis, STAMP_FORMAT@)
}

/// Calls `chrono::Utc.timestamp_millis_opt(millis).single()` and writes the
/// instant with the format `fmt`. The contract claims only that the outcome
/// is the named function of `millis` and `fmt`: `None` where `chrono` has no
/// single instant for `millis` or fails to render the format.
#[verifier::external_body]
fn format_utc_millis(millis: i64, fmt: &str) -> (r: Option<String>)
    ensures
        match r {
            Some(s) => utc_formatted(millis, fmt@) == Some(s@),
            None => utc_formatted(millis, fmt@) is None,
        },
{
    match chrono::TimeZone::timestamp_millis_opt(&chrono::Utc, millis).single() {
        Some(t) => {
            let mut s = String::new();
            match write!(s, "{}", t.format(fmt)) {
                Ok(()) => Some(s),
                Err(_) => None,
            }
        },
        None => None,
    }
}

/// A UTC instant that `chrono` can represent, at millisecond precision.
#[derive(Debug, Clone, Copy)]
pub struct UtcTime {
    millis: i64,
}

impl UtcTime {
    #[verifier::type_invariant]
    spec fn representable(self) -> bool {
        utc_second_stamp(self.millis) is Some
    }

    /// Milliseconds since the Unix epoch.
    pub closed spec fn spec_millis(self) -> i64 {
        self.millis
    }

    /// The instant `millis` milliseconds after the Unix epoch, when `chrono`
    /// can represent it.
    pub fn from_millis(millis: i64) -> (r: Option<UtcTime>)
        ensures
            r is Some <==> utc_second_stamp(millis) is Some,
            r matches Some(t) ==> t.spec_millis() == millis,
    {
        match format_utc_millis(millis, STAMP_FORMAT) {
            Some(_) => Some(UtcTime { millis }),
            None => None,
        }
    }

    pub fn millis(&self) -> (r: i64)
        ensures
            r == self.spec_millis(),
    {
        self.millis
    }

    /// The instant as `YYYY-MM-DDTHH:MM:SSZ`.
    pub fn stamp(&self) -> (r: String)
        ensures
            utc_second_stamp(self.spec_millis()) == Some(r@),
            r@ == self.spec_stamp(),
    {
        proof {
            use_type_invariant(self);
        }
        match format_utc_millis(self.millis, STAMP_FORMAT) {
            Some(s) => s,
            None => String::new(),
        }
    }

    /// The stamp of a representable instant.
    pub closed spec fn spec_stamp(self) -> Seq<char> {
        utc_second_stamp(self.millis).unwrap()
    }
}

/// The stamp of `millis` as `chrono` formats it, or `?` when it cannot.
pub fn stamp_or_unknown(millis: i64) -> (r: String)
    ensures
        match utc_second_stamp(millis) {
            Some(s) => r@ == s,
            None => r@ == "?"@,
        },
{
    match format_utc_millis(millis, STAMP_FORMAT) {
        Some(s) => s,
        None => String::from_str("?"),
    }
}

} // verus!
