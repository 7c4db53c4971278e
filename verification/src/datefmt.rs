//! Calendar rendering of a period's start instant, done by chrono.

use vstd::prelude::*;

verus! {

/// The calendar text ("weekday month day time", UTC) that chrono renders for
/// a Unix timestamp in seconds; a function of the timestamp alone.
pub uninterp spec fn date_display(secs: u64) -> Seq<char>;

/// Relies on chrono's `DateTime::from_timestamp` and its `%a %b %e %T`
/// formatting: both deterministic in the timestamp (UTC, English month and
/// weekday names), with an empty string for a timestamp chrono cannot
/// represent.
#[verifier::external_body]
pub fn fmt_timestamp(secs: u64) -> (r: String)
    ensures
        r@ == date_display(secs),
{
    match chrono::DateTime::from_timestamp(secs as i64, 0) {
        Some(dt) => dt.format("%a %b %e %T").to_string(),
        None => String::new(),
    }
}

} // verus!
