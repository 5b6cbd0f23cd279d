//! The boundary between the plain timestamp model (whole UTC seconds since
//! the Unix epoch) and the RFC 3339 text that the stores use in transit.
//!
//! Both directions are pure functions of their argument, so each is given a
//! name that contracts elsewhere can speak of; the conversions themselves
//! are done by chrono.

use vstd::prelude::*;

verus! {

/// The timestamp denoted by an RFC 3339 date-and-time string, in whole UTC
/// seconds since the Unix epoch (fractional seconds truncated), or `None`
/// where the string is not a valid RFC 3339 date-and-time.
pub uninterp spec fn rfc3339_parse(s: Seq<char>) -> Option<i64>;

/// The canonical RFC 3339 text of a timestamp given in whole UTC seconds
/// since the Unix epoch (empty for the few timestamps outside chrono's
/// representable range of years).
pub uninterp spec fn rfc3339_text(t: i64) -> Seq<char>;

/// Relies on chrono::DateTime::parse_from_rfc3339, which parses every valid
/// RFC 3339 date-and-time string and rejects everything else, and on
/// chrono::DateTime::timestamp, which reads the instant back as whole UTC
/// seconds since the Unix epoch. Both depend on the characters alone.
#[verifier::external_body]
pub fn parse_rfc3339(s: &str) -> (r: Option<i64>)
    ensures
        r == rfc3339_parse(s@),
{
    match chrono::DateTime::parse_from_rfc3339(s) {
        Ok(dt) => Some(dt.timestamp()),
        Err(_) => None,
    }
}

/// Relies on chrono::DateTime::from_timestamp, which is `Some` for every
/// timestamp within chrono's representable years and `None` outside them,
/// and on chrono::DateTime::to_rfc3339, which writes the instant as RFC 3339
/// text. Both depend on the timestamp alone.
#[verifier::external_body]
pub fn format_rfc3339(t: i64) -> (r: String)
    ensures
        r@ == rfc3339_text(t),
{
    match chrono::DateTime::from_timestamp(t, 0) {
        Some(dt) => dt.to_rfc3339(),
        None => String::new(),
    }
}

} // verus!
