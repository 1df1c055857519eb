//! Instants in UTC, as the derivation compares and shifts them.
//!
//! An instant is held as whole seconds since 1970-01-01T00:00:00Z (leap seconds not counted)
//! and a nanosecond part. The nanosecond part reaches 1_000_000_000 or more only inside a leap
//! second, which can only follow second 59 of a minute. Instants are ordered by seconds, then
//! nanoseconds.
use vstd::prelude::*;

verus! {

/// A UTC instant.
#[derive(Clone, Copy, Debug, PartialEq, Eq)]
pub struct Timestamp {
    /// Seconds since 1970-01-01T00:00:00Z, not counting leap seconds.
    pub secs: i64,
    /// Nanoseconds into the second; 1_000_000_000 and above inside a leap second.
    pub nanos: u32,
}

/// The earliest representable instant: -262143-01-01T00:00:00Z.
pub const EARLIEST_SECS: i64 = -8_334_601_228_800;

/// The latest representable second: +262142-12-31T23:59:59Z.
pub const LATEST_SECS: i64 = 8_210_266_876_799;

/// Seconds in a day.
pub const SECS_PER_DAY: i64 = 86_400;

impl Timestamp {
    /// Within the representable range, with a nanosecond part that is legal for its second.
    pub open spec fn is_valid(self) -> bool {
        &&& EARLIEST_SECS <= self.secs <= LATEST_SECS
        &&& (self.nanos < 1_000_000_000 || (self.nanos < 2_000_000_000 && self.secs % 60 == 59))
    }

    /// Strictly earlier than `other`.
    pub open spec fn precedes(self, other: Timestamp) -> bool {
        self.secs < other.secs || (self.secs == other.secs && self.nanos < other.nanos)
    }

    /// Earlier than or equal to `other`.
    pub open spec fn not_after(self, other: Timestamp) -> bool {
        !other.precedes(self)
    }

    /// Shifting by `days` whole days stays inside the representable range.
    pub open spec fn days_later_fits(self, days: int) -> bool {
        EARLIEST_SECS <= self.secs + SECS_PER_DAY * days <= LATEST_SECS
    }

    /// The instant `days` (at least zero) whole days later. Shifting out of a leap second by a
    /// positive number of days lands on the same fraction of the ordinary second that follows
    /// the shifted minute's second 59.
    pub open spec fn days_later(self, days: int) -> Timestamp {
        Timestamp {
            secs: (self.secs + SECS_PER_DAY * days) as i64,
            nanos: if days > 0 && self.nanos >= 1_000_000_000 {
                (self.nanos - 1_000_000_000) as u32
            } else {
                self.nanos
            },
        }
    }

    /// Strictly earlier than `other`.
    pub fn is_before(&self, other: &Timestamp) -> (b: bool)
        ensures
            b == self.precedes(*other),
    {
        self.secs < other.secs || (self.secs == other.secs && self.nanos < other.nanos)
    }

    /// Earlier than or equal to `other`.
    pub fn is_not_after(&self, other: &Timestamp) -> (b: bool)
        ensures
            b == self.not_after(*other),
    {
        !other.is_before(self)
    }

    /// The instant `days` whole days later.
    pub fn plus_days(&self, days: i64) -> (r: Timestamp)
        requires
            self.is_valid(),
            days >= 0,
            self.days_later_fits(days as int),
        ensures
            r == self.days_later(days as int),
            r.is_valid(),
    {
        let secs = self.secs + SECS_PER_DAY * days;
        let nanos = if days > 0 && self.nanos >= 1_000_000_000 {
            self.nanos - 1_000_000_000
        } else {
            self.nanos
        };
        Timestamp { secs, nanos }
    }
}

/// What chrono's `DateTime::<Utc>::to_rfc3339_opts` writes for an instant, with automatic
/// sub-second digits, and `Z` (when `use_z`) or `+00:00` as the offset.
pub uninterp spec fn rfc3339_text(secs: int, nanos: int, use_z: bool) -> Seq<char>;

/// RFC 3339 text of an instant.
///
/// Trusted: rebuilds the instant with chrono's `DateTime::from_timestamp`, which accepts every
/// valid instant, and formats it with `to_rfc3339_opts(SecondsFormat::AutoSi, use_z)`. The
/// contract only names the result; it says nothing of the calendar arithmetic.
#[verifier::external_body]
pub(crate) fn format_rfc3339(t: Timestamp, use_z: bool) -> (s: String)
    requires
        t.is_valid(),
    ensures
        s@ == rfc3339_text(t.secs as int, t.nanos as int, use_z),
{
    match chrono::DateTime::from_timestamp(t.secs, t.nanos) {
        Some(d) => d.to_rfc3339_opts(chrono::SecondsFormat::AutoSi, use_z),
        None => String::new(),
    }
}

} // verus!
