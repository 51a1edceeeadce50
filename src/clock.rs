use vstd::prelude::*;

verus! {

/// The instant that a date-time text names, in milliseconds since the Unix
/// epoch, as chrono reads it; `None` where chrono rejects the text.
pub uninterp spec fn utc_millis_of(s: Seq<char>) -> Option<i64>;

/// The time now, in milliseconds since the Unix epoch.
///
/// Relies on `chrono::Utc::now` (with `DateTime::timestamp_millis`): the
/// system clock, so nothing is promised of the value.
#[verifier::external_body]
pub(crate) fn now_millis() -> (r: i64) {
    chrono::Utc::now().timestamp_millis()
}

/// Reads a date-time text such as an XSTS token's `NotAfter`.
///
/// Relies on chrono's `FromStr for DateTime<Utc>` (a relaxed RFC 3339
/// reading, any offset converted to UTC) and `DateTime::timestamp_millis`:
/// the result depends on the text alone.
#[verifier::external_body]
pub(crate) fn parse_utc_millis(s: &str) -> (r: Option<i64>)
    ensures
        r == utc_millis_of(s@),
{
    s.parse::<chrono::DateTime<chrono::Utc>>().ok().map(|d| d.timestamp_millis())
}

} // verus!
