//! Values taken from the surroundings: the clock and fresh identifiers, and
//! the reading of RFC 3339 timestamps.
use vstd::prelude::*;

verus! {

/// The Unix time, in whole seconds, that an RFC 3339 timestamp denotes, or
/// `None` where the text is not RFC 3339.
pub uninterp spec fn rfc3339_seconds(s: Seq<char>) -> Option<i64>;

/// Relies on chrono::Utc::now and DateTime::to_rfc3339: the current time as
/// RFC 3339 text.
#[verifier::external_body]
pub(crate) fn now_rfc3339() -> (r: String) {
    chrono::Utc::now().to_rfc3339()
}

/// Relies on chrono::Utc::now and DateTime::timestamp: the current Unix
/// time in seconds.
#[verifier::external_body]
pub(crate) fn now_seconds() -> (r: i64) {
    chrono::Utc::now().timestamp()
}

/// Relies on uuid::Uuid::new_v4: a fresh random identifier in hyphenated
/// form.
#[verifier::external_body]
pub(crate) fn new_uuid() -> (r: String) {
    uuid::Uuid::new_v4().to_string()
}

/// Relies on chrono::DateTime::parse_from_rfc3339 and DateTime::timestamp:
/// the result depends on the text alone.
#[verifier::external_body]
pub(crate) fn parse_rfc3339_seconds(s: &str) -> (r: Option<i64>)
    ensures
        r == rfc3339_seconds(s@),
{
    match chrono::DateTime::parse_from_rfc3339(s) {
        Ok(t) => Some(t.timestamp()),
        Err(_) => None,
    }
}

} // verus!
