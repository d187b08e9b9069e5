//! Instants and their RFC 3339 text.

use chrono::{DateTime, Utc};
use vstd::prelude::*;
use vstd::string::*;

verus! {

/// The first second that a timestamp can name, counted from 1970-01-01T00:00:00Z.
pub const MIN_SECONDS: i64 = -8334601228800;

/// The last second that a timestamp can name.
pub const MAX_SECONDS: i64 = 8210266876799;

/// The first and the last second of the years that RFC 3339 can write, 0 to 9999.
pub const FIRST_WRITABLE_SECOND: i64 = -62167219200;

pub const LAST_WRITABLE_SECOND: i64 = 253402300799;

/// The seconds of a day.
pub const DAY_SECONDS: i64 = 86400;

/// A point in time: whole seconds since 1970-01-01T00:00:00Z, and nanoseconds beyond them.
#[derive(Debug, Clone, Copy, PartialEq, Eq, Structural)]
pub struct Instant {
    pub seconds: i64,
    pub nanos: u32,
}

impl Instant {
    /// Whether the instant has a text.
    pub open spec fn is_valid(self) -> bool {
        MIN_SECONDS <= self.seconds <= MAX_SECONDS && self.nanos < 1_000_000_000
    }

    /// Whether the instant lies in a year that RFC 3339 can write.
    pub open spec fn is_writable(self) -> bool {
        self.is_valid() && FIRST_WRITABLE_SECOND <= self.seconds <= LAST_WRITABLE_SECOND
    }

    /// Whether the instant lies after `other`.
    pub open spec fn later_than(self, other: Instant) -> bool {
        self.seconds > other.seconds || (self.seconds == other.seconds && self.nanos > other.nanos)
    }

    /// Whether the instant lies after `other`.
    pub fn is_after(&self, other: &Instant) -> (r: bool)
        ensures
            r == self.later_than(*other),
    {
        self.seconds > other.seconds || (self.seconds == other.seconds && self.nanos > other.nanos)
    }
}

/// What `chrono::DateTime::<Utc>::to_rfc3339` writes for an instant.
pub uninterp spec fn rfc3339_text(seconds: i64, nanos: u32) -> Seq<char>;

/// What `chrono::DateTime::parse_from_rfc3339` reads from a text: the seconds and
/// nanoseconds of the instant, or nothing when the text is no RFC 3339 date and time.
pub uninterp spec fn rfc3339_instant(text: Seq<char>) -> Option<(i64, u32)>;

/// The text of an instant.
pub open spec fn stamp_of(t: Instant) -> Seq<char> {
    rfc3339_text(t.seconds, t.nanos)
}

/// The instant that a text names.
pub open spec fn instant_of(text: Seq<char>) -> Option<Instant> {
    match rfc3339_instant(text) {
        Some((seconds, nanos)) => Some(Instant { seconds, nanos }),
        None => None,
    }
}

/// The seconds and nanoseconds of an instant.
pub open spec fn parts_of(t: Option<Instant>) -> Option<(i64, u32)> {
    match t {
        Some(t) => Some((t.seconds, t.nanos)),
        None => None,
    }
}

/// `chrono::Utc::now` reads the system clock. It gives a time that `chrono` can represent,
/// at or after 1970; nothing else is known of it.
#[verifier::external_body]
pub(crate) fn utc_now() -> (r: Instant)
    ensures
        r.is_valid(),
        r.seconds >= 0,
{
    let now = Utc::now();
    Instant { seconds: now.timestamp(), nanos: now.timestamp_subsec_nanos() }
}

/// `chrono::DateTime::<Utc>::to_rfc3339` writes the instant, which lies in the range that
/// `chrono` can represent, as a text that depends on the instant alone. In the years that RFC
/// 3339 can write, all digits of the nanoseconds are kept, so that
/// `chrono::DateTime::parse_from_rfc3339` reads the instant back.
#[verifier::external_body]
pub(crate) fn to_rfc3339(t: Instant) -> (r: String)
    requires
        t.is_valid(),
    ensures
        r@ == rfc3339_text(t.seconds, t.nanos),
        t.is_writable() ==> rfc3339_instant(r@) == Some((t.seconds, t.nanos)),
{
    let when: DateTime<Utc> = DateTime::from_timestamp(t.seconds, t.nanos).unwrap_or_default();
    when.to_rfc3339()
}

/// `chrono::DateTime::parse_from_rfc3339` reads an RFC 3339 date and time; the result
/// depends on the text alone. Instants are ordered by seconds, then nanoseconds, as
/// `chrono` orders them.
#[verifier::external_body]
pub(crate) fn parse_rfc3339(text: &str) -> (r: Option<Instant>)
    ensures
        parts_of(r) == rfc3339_instant(text@),
{
    DateTime::parse_from_rfc3339(text).ok().map(
        |t| Instant { seconds: t.timestamp(), nanos: t.timestamp_subsec_nanos() },
    )
}

/// The current time.
pub fn now() -> (r: Instant)
    ensures
        r.is_valid(),
        r.seconds >= 0,
{
    utc_now()
}

} // verus!
