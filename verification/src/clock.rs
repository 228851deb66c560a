//! Instants, and the two things the hub needs from a calendar: the current
//! time and the text of an instant.

use vstd::prelude::*;

verus! {

/// An instant on the UTC time line: whole seconds since 1970-01-01T00:00:00Z
/// and the nanoseconds into that second.
#[derive(Clone, Copy, Debug, PartialEq, Eq, Structural)]
pub struct Timestamp {
    pub secs: i64,
    pub nanos: u32,
}

/// The RFC 3339 text of the instant `secs` seconds and `nanos` nanoseconds
/// after the epoch, as `chrono` writes it for UTC: fractional seconds in
/// groups of three digits as far as they are needed, and `Z` for the offset.
/// `None` where `chrono` has no date for the instant.
pub uninterp spec fn rfc3339_text(secs: int, nanos: int) -> Option<Seq<char>>;

/// Reads the system clock with `std::time::SystemTime::now` and takes the
/// instant from `chrono`'s conversion of it to `DateTime<Utc>`, which also
/// knows what to do with a clock that stands before 1970.
///
/// Nothing is promised of the instant that comes back.
#[verifier::external_body]
pub(crate) fn now() -> Timestamp {
    let t = chrono::DateTime::<chrono::Utc>::from(std::time::SystemTime::now());
    Timestamp { secs: t.timestamp(), nanos: t.timestamp_subsec_nanos() }
}

/// Writes an instant as RFC 3339 text: `chrono::DateTime::from_timestamp`,
/// then `to_rfc3339_opts` with `SecondsFormat::AutoSi` and `Z`.
///
/// The contract only names the text. `from_timestamp` refuses seconds outside
/// the years `chrono` can represent and nanoseconds that are no part of a
/// second; those give `None`.
#[verifier::external_body]
pub(crate) fn rfc3339(at: Timestamp) -> (r: Option<String>)
    ensures
        match r {
            Some(text) => rfc3339_text(at.secs as int, at.nanos as int) == Some(text@),
            None => rfc3339_text(at.secs as int, at.nanos as int) is None,
        },
{
    match chrono::DateTime::from_timestamp(at.secs, at.nanos) {
        Some(t) => Some(t.to_rfc3339_opts(chrono::SecondsFormat::AutoSi, true)),
        None => None,
    }
}

} // verus!
