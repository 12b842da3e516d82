//! Instants on the UTC time line.
//!
//! A [`Timestamp`] holds the two numbers by which `chrono` identifies a UTC
//! instant: the whole seconds since the Unix epoch and the nanoseconds since
//! the last whole second. Instants are ordered by seconds first and
//! nanoseconds second, which is the order `chrono` gives its own values.

use crate::text::text_view;
use vstd::prelude::*;

verus! {

/// An absolute instant in UTC.
#[derive(Clone, Copy, Debug, PartialEq, Eq, Structural)]
pub struct Timestamp {
    /// Whole non-leap seconds since 1970-01-01T00:00:00Z.
    pub secs: i64,
    /// Nanoseconds since the last whole second.
    pub nanos: u32,
}

impl Timestamp {
    /// `self` lies strictly later than `other`.
    pub open spec fn is_after(self, other: Timestamp) -> bool {
        self.secs > other.secs || (self.secs == other.secs && self.nanos > other.nanos)
    }

    /// `self` lies at `other` or earlier.
    pub open spec fn is_at_or_before(self, other: Timestamp) -> bool {
        !self.is_after(other)
    }

    /// The instant read from `text`, where `chrono` accepts it as a UTC date and time.
    pub open spec fn parsed(text: Seq<char>) -> Option<Timestamp> {
        match utc_instant_of(text) {
            Some((secs, nanos)) => Some(Timestamp { secs, nanos }),
            None => None,
        }
    }

    /// The RFC 3339 text of `self`, where `chrono` can represent the instant.
    pub open spec fn rfc3339(self) -> Option<Seq<char>> {
        rfc3339_text_of(self.secs, self.nanos)
    }

    /// Builds the instant `nanos` nanoseconds after the whole second `secs`.
    pub fn new(secs: i64, nanos: u32) -> (t: Timestamp)
        ensures
            t == (Timestamp { secs, nanos }),
    {
        Timestamp { secs, nanos }
    }

    /// Tells whether `self` lies strictly later than `other`.
    pub fn after(&self, other: &Timestamp) -> (b: bool)
        ensures
            b == self.is_after(*other),
    {
        self.secs > other.secs || (self.secs == other.secs && self.nanos > other.nanos)
    }

    /// Tells whether `self` lies at `other` or earlier.
    pub fn at_or_before(&self, other: &Timestamp) -> (b: bool)
        ensures
            b == self.is_at_or_before(*other),
    {
        !self.after(other)
    }

    /// Reads the system clock.
    ///
    /// Which instant comes back is up to the clock, and two readings may
    /// differ. Whichever it is, it is an instant of the UTC calendar: it can
    /// be written as RFC 3339 text.
    pub fn now() -> (now: Timestamp)
        ensures
            now.rfc3339() is Some,
    {
        let (secs, nanos) = clock_reading();
        Timestamp { secs, nanos }
    }

    /// Reads an instant from a date and time in the relaxed RFC 3339 form
    /// that `chrono` accepts, and returns `None` where `chrono` rejects the text.
    pub fn parse(text: &str) -> (t: Option<Timestamp>)
        ensures
            t == Timestamp::parsed(text@),
    {
        match parse_utc(text) {
            Some((secs, nanos)) => Some(Timestamp { secs, nanos }),
            None => None,
        }
    }

    /// Writes the instant as RFC 3339 text, and returns `None` where the
    /// instant lies outside the dates that `chrono` can represent.
    pub fn to_rfc3339(&self) -> (text: Option<String>)
        ensures
            text_view(text) == self.rfc3339(),
    {
        format_rfc3339(self.secs, self.nanos)
    }
}

/// What `chrono` reads from `text` as a UTC date and time: the seconds since
/// the Unix epoch and the nanoseconds within the second, or `None` where it
/// rejects the text.
pub uninterp spec fn utc_instant_of(text: Seq<char>) -> Option<(i64, u32)>;

/// What `chrono` writes for the instant with these seconds and nanoseconds in
/// RFC 3339 form, or `None` where it cannot represent the instant.
pub uninterp spec fn rfc3339_text_of(secs: i64, nanos: u32) -> Option<Seq<char>>;

/// Calls `chrono::Utc::now` and takes the instant apart with
/// `DateTime::timestamp` and `DateTime::timestamp_subsec_nanos`.
///
/// No claim is made about which instant is read. The contract claims that
/// the two numbers can be written again: `chrono` documents that
/// `DateTime::from_timestamp` takes back what `timestamp` and
/// `timestamp_subsec_nanos` give for any of its instants, and
/// `DateTime::to_rfc3339` writes every instant. `chrono` panics where the
/// system clock stands before the Unix epoch.
#[verifier::external_body]
fn clock_reading() -> (parts: (i64, u32))
    ensures
        rfc3339_text_of(parts.0, parts.1) is Some,
{
    let instant = chrono::Utc::now();
    (instant.timestamp(), instant.timestamp_subsec_nanos())
}

/// Calls `chrono`'s `FromStr` for `DateTime<Utc>` and takes the instant
/// apart with `DateTime::timestamp` and `DateTime::timestamp_subsec_nanos`.
///
/// The contract only names the outcome: parsing depends on the text alone,
/// so the same text always gives the same answer.
#[verifier::external_body]
fn parse_utc(text: &str) -> (parts: Option<(i64, u32)>)
    ensures
        parts == utc_instant_of(text@),
{
    match text.parse::<chrono::DateTime<chrono::Utc>>() {
        Ok(instant) => Some((instant.timestamp(), instant.timestamp_subsec_nanos())),
        Err(_) => None,
    }
}

/// Calls `chrono::DateTime::from_timestamp` and, where that yields an
/// instant, `DateTime::to_rfc3339` on it.
///
/// The contract only names the outcome: it depends on the two numbers alone.
#[verifier::external_body]
fn format_rfc3339(secs: i64, nanos: u32) -> (text: Option<String>)
    ensures
        text_view(text) == rfc3339_text_of(secs, nanos),
{
    match chrono::DateTime::from_timestamp(secs, nanos) {
        Some(instant) => Some(instant.to_rfc3339()),
        None => None,
    }
}

} // verus!
