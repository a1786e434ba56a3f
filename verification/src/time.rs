//! Instants in UTC, and reading them from RFC 3339 text.

use vstd::prelude::*;

verus! {

/// An instant in UTC: whole seconds since the Unix epoch, and the
/// nanoseconds into that second.
#[derive(Debug, Clone, Copy, PartialEq, Eq, Structural)]
pub struct Timestamp {
    pub secs: i64,
    pub nanos: u32,
}

/// Why `chrono` could not read a date and time.
#[verifier::external_type_specification]
#[verifier::external_body]
pub struct ExRfc3339Error(chrono::ParseError);

/// The instant that RFC 3339 text denotes, as seconds since the Unix epoch
/// and nanoseconds into the second; `None` for text that is no RFC 3339
/// date and time.
pub uninterp spec fn rfc3339_instant(text: Seq<char>) -> Option<(int, int)>;

/// Calls `chrono::DateTime::parse_from_rfc3339` and reads the instant with
/// `timestamp` and `timestamp_subsec_nanos`. Trusted: whether the text is
/// accepted, and the instant read from it, depend on the text alone.
#[verifier::external_body]
fn parse_rfc3339(text: &str) -> (r: Result<Timestamp, chrono::ParseError>)
    ensures
        match r {
            Ok(t) => rfc3339_instant(text@) == Some((t.secs as int, t.nanos as int)),
            Err(_) => rfc3339_instant(text@) is None,
        },
{
    let parsed = chrono::DateTime::parse_from_rfc3339(text)?;
    Ok(Timestamp { secs: parsed.timestamp(), nanos: parsed.timestamp_subsec_nanos() })
}

impl Timestamp {
    /// The instant that RFC 3339 text denotes, if it denotes one.
    pub open spec fn read(text: Seq<char>) -> Option<Timestamp> {
        match rfc3339_instant(text) {
            Some((secs, nanos)) => Some(Timestamp { secs: secs as i64, nanos: nanos as u32 }),
            None => None,
        }
    }

    /// Reads an RFC 3339 date and time.
    pub fn from_rfc3339(text: &str) -> (r: Option<Timestamp>)
        ensures
            r == Timestamp::read(text@),
    {
        match parse_rfc3339(text) {
            Ok(t) => Some(t),
            Err(_) => None,
        }
    }

    /// Reads an RFC 3339 date and time, or takes `fallback` where the text
    /// is none.
    pub fn from_rfc3339_or(text: &str, fallback: Timestamp) -> (r: Timestamp)
        ensures
            r == match Timestamp::read(text@) {
                Some(t) => t,
                None => fallback,
            },
    {
        match Timestamp::from_rfc3339(text) {
            Some(t) => t,
            None => fallback,
        }
    }
}

} // verus!
