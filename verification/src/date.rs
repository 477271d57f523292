//! Date normalization: from a calendar date in `YYYY-MM-DD` form to a
//! timestamp by which posts are ordered.

use crate::text::join;
use vstd::prelude::*;

verus! {

/// Time of day and offset appended to a calendar date: midnight, UTC.
pub const MIDNIGHT_UTC: &'static str = "T00:00:00+00:00";

/// An instant on the UTC time line: whole seconds since 1970-01-01T00:00:00Z
/// and the nanoseconds since the last second boundary.
#[derive(Clone, Copy, Debug, PartialEq, Eq, Structural)]
pub struct Timestamp {
    pub seconds: i64,
    pub nanos: u32,
}

impl Timestamp {
    /// `self` is strictly earlier than `other`.
    pub open spec fn before(self, other: Timestamp) -> bool {
        self.seconds < other.seconds || (self.seconds == other.seconds && self.nanos
            < other.nanos)
    }

    /// `self` is not later than `other`.
    pub open spec fn not_after(self, other: Timestamp) -> bool {
        self.before(other) || self == other
    }

    /// Whether `self` is strictly earlier than `other`.
    pub fn is_before(&self, other: &Timestamp) -> (earlier: bool)
        ensures
            earlier == self.before(*other),
    {
        self.seconds < other.seconds || (self.seconds == other.seconds && self.nanos
            < other.nanos)
    }
}

/// Timestamps are totally ordered: of two, exactly one is before the other
/// unless they are equal, and what is before an earlier one is before a later
/// one.
pub proof fn lemma_timestamps_totally_ordered(a: Timestamp, b: Timestamp, c: Timestamp)
    ensures
        a.before(b) || b.before(a) || a == b,
        !(a.before(b) && b.before(a)),
        !a.before(a),
        a.before(b) && b.before(c) ==> a.before(c),
        a.not_after(b) <==> !b.before(a),
{
}

/// A date string that could not be normalized.
#[derive(Clone, Debug, PartialEq, Eq)]
pub struct DateParseError {
    /// The date as it was given.
    pub raw: String,
}

/// `chrono::ParseError`, the error of chrono's parsers. Nothing inside it is
/// read here; it only tells that a text did not parse.
#[verifier::external_type_specification]
#[verifier::external_body]
pub struct ExParseError(chrono::ParseError);

/// The instant that chrono's RFC 3339 parser reads from a text, as seconds
/// since the epoch and nanoseconds within the second; `None` where the parser
/// rejects the text.
pub uninterp spec fn rfc3339_instant(text: Seq<char>) -> Option<(i64, u32)>;

/// Calls `chrono::DateTime::parse_from_rfc3339` and, on success, reads the
/// parsed value with `DateTime::timestamp` and
/// `DateTime::timestamp_subsec_nanos`.
///
/// The parser looks at the text alone, so its outcome is `rfc3339_instant` of
/// the text: the two numbers on success, an error exactly where there is none.
#[verifier::external_body]
fn parse_rfc3339(text: &str) -> (parsed: Result<(i64, u32), chrono::ParseError>)
    ensures
        match parsed {
            Ok(instant) => rfc3339_instant(text@) == Some(instant),
            Err(_) => rfc3339_instant(text@).is_none(),
        },
{
    match chrono::DateTime::parse_from_rfc3339(text) {
        Ok(moment) => Ok((moment.timestamp(), moment.timestamp_subsec_nanos())),
        Err(error) => Err(error),
    }
}

/// The sort key of a calendar date: the instant read from the date followed
/// by `T00:00:00+00:00`, or `None` where that text is rejected.
pub open spec fn date_key(date: Seq<char>) -> Option<Timestamp> {
    match rfc3339_instant(date + MIDNIGHT_UTC@) {
        Some(instant) => Some(Timestamp { seconds: instant.0, nanos: instant.1 }),
        None => None,
    }
}

/// The timestamp that a parsed date-time text stands for, or the error that
/// reports `date` where the text did not parse.
pub fn key_of_parsed(date: &str, parsed: Option<(i64, u32)>) -> (key: Result<
    Timestamp,
    DateParseError,
>)
    ensures
        match parsed {
            Some(instant) => key == Ok::<Timestamp, DateParseError>(
                Timestamp { seconds: instant.0, nanos: instant.1 },
            ),
            None => key is Err && key->Err_0.raw@ == date@,
        },
{
    match parsed {
        Some(instant) => Ok(Timestamp { seconds: instant.0, nanos: instant.1 }),
        None => Err(DateParseError { raw: String::from_str(date) }),
    }
}

/// Converts a date in `YYYY-MM-DD` form to its sort key.
///
/// The time of day `T00:00:00+00:00` is appended and the result parsed as an
/// RFC 3339 date-time; a date with a time of day or offset of its own is not
/// treated specially.
pub fn normalize(date: &str) -> (key: Result<Timestamp, DateParseError>)
    ensures
        match date_key(date@) {
            Some(stamp) => key == Ok::<Timestamp, DateParseError>(stamp),
            None => key is Err && key->Err_0.raw@ == date@,
        },
{
    let text = join(date, MIDNIGHT_UTC);
    let parsed = match parse_rfc3339(text.as_str()) {
        Ok(instant) => Some(instant),
        Err(_) => None,
    };
    key_of_parsed(date, parsed)
}

} // verus!
