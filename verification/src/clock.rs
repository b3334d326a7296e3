//! Time. Instants are microseconds since the Unix epoch, in UTC; chrono
//! supplies the current time and RFC 3339 parsing behind trusted wrappers.

use vstd::prelude::*;

verus! {

/// Relies on chrono's Utc::now: the current time; nothing is assumed of the
/// value.
#[verifier::external_body]
pub fn now_micros() -> i64 {
    chrono::Utc::now().timestamp_micros()
}

/// What chrono's RFC 3339 parser makes of a string: the instant in
/// microseconds since the epoch, or nothing; a function of the string alone.
pub uninterp spec fn rfc3339_micros_of(s: Seq<char>) -> Option<i64>;

/// Relies on chrono's DateTime::parse_from_rfc3339: whether a string parses,
/// and to which instant, depends on the string alone.
#[verifier::external_body]
pub fn parse_rfc3339_micros(s: &str) -> (r: Option<i64>)
    ensures
        r == rfc3339_micros_of(s@),
{
    match chrono::DateTime::parse_from_rfc3339(s) {
        Ok(dt) => Some(dt.timestamp_micros()),
        Err(_) => None,
    }
}

} // verus!
