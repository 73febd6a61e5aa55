//! Identifiers and clock readings.
//!
//! Identities and tasks are keyed by 128-bit values.  The uuid crate supplies
//! the random generator and the canonical hyphenated text form; the chrono
//! crate supplies the clock and the timestamp parser.  All of them are called
//! through the trusted wrappers below.

use vstd::prelude::*;

verus! {

/// The canonical hyphenated text form of a 128-bit identifier.
pub uninterp spec fn spec_uuid_str(id: u128) -> Seq<char>;

/// What the uuid parser accepts, and the value it reads.
pub uninterp spec fn spec_parse_uuid(s: Seq<char>) -> Option<u128>;

/// What the RFC 3339 timestamp parser accepts, as a unix timestamp.
pub uninterp spec fn spec_parse_datetime(s: Seq<char>) -> Option<i64>;

/// Relies on `uuid::Uuid`'s `Display`: the hyphenated lower-case form of
/// the 128-bit value, a function of the value alone.
#[verifier::external_body]
pub fn uuid_to_string(id: u128) -> (r: String)
    ensures
        r@ == spec_uuid_str(id),
{
    uuid::Uuid::from_u128(id).to_string()
}

/// Relies on `uuid::Uuid::parse_str`: reads an identifier from its text
/// forms; the result is a function of the string alone.
#[verifier::external_body]
pub fn parse_uuid(s: &str) -> (r: Option<u128>)
    ensures
        r == spec_parse_uuid(s@),
{
    uuid::Uuid::parse_str(s).ok().map(|u| u.as_u128())
}

/// Relies on `uuid::Uuid::new_v4`: a randomly drawn identifier; nothing is
/// promised of the value, and callers must handle collisions.
#[verifier::external_body]
pub(crate) fn new_uuid() -> u128 {
    uuid::Uuid::new_v4().as_u128()
}

/// Relies on `chrono::Utc::now`: the current unix timestamp in seconds;
/// nothing is promised of the value.
#[verifier::external_body]
pub(crate) fn now_timestamp() -> i64 {
    chrono::Utc::now().timestamp()
}

/// Relies on chrono's `DateTime<Utc>` parser (RFC 3339 and friends); the
/// result is a function of the string alone.
#[verifier::external_body]
pub fn parse_datetime(s: &str) -> (r: Option<i64>)
    ensures
        r == spec_parse_datetime(s@),
{
    s.parse::<chrono::DateTime<chrono::Utc>>().ok().map(|d| d.timestamp())
}

} // verus!
