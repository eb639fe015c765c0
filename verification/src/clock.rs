use vstd::prelude::*;

verus! {

/// The absolute point in time, in milliseconds since the Unix epoch, that a
/// piece of timestamp text denotes, or `None` where it denotes none.
/// The result depends on the characters alone.
pub uninterp spec fn ts_millis_of(s: Seq<char>) -> Option<i64>;

/// Relies on chrono's `DateTime::parse_from_rfc3339` and `timestamp_millis`:
/// reads RFC 3339 text with an offset into epoch milliseconds, a function of
/// the text alone.
#[verifier::external_body]
pub fn parse_rfc3339_millis(s: &str) -> (r: Option<i64>)
    ensures
        r == ts_millis_of(s@),
{
    match chrono::DateTime::parse_from_rfc3339(s) {
        Ok(d) => Some(d.timestamp_millis()),
        Err(_) => None,
    }
}

/// Relies on chrono's `Utc::now` and `timestamp_millis`: the current moment
/// as epoch milliseconds. Nothing is promised of the value.
#[verifier::external_body]
pub fn now_millis() -> i64 {
    chrono::Utc::now().timestamp_millis()
}

} // verus!
