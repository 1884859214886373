//! Instants and spans of time as plain integers.
//!
//! An instant is a count of whole seconds since the Unix epoch plus a count
//! of nanoseconds; a span has the same shape. Both are compared and
//! subtracted through their total number of nanoseconds, which always fits
//! in an `i128`, so no operation here needs a precondition on the fields.

use vstd::prelude::*;

verus! {

pub const NANOS_PER_SEC: i128 = 1_000_000_000;

/// A point in time: `secs` whole seconds since 1970-01-01T00:00:00Z and
/// `nanos` nanoseconds after that second.
#[derive(Debug, Clone, Copy, PartialEq, Eq, Structural)]
pub struct Timestamp {
    pub secs: i64,
    pub nanos: u32,
}

/// A signed span of time: `secs` whole seconds plus `nanos` nanoseconds.
#[derive(Debug, Clone, Copy, PartialEq, Eq, Structural)]
pub struct Duration {
    pub secs: i64,
    pub nanos: u32,
}

/// No date that `chrono` holds lies this many seconds or more from the
/// epoch: its years run from -262143 to 262142, less than 264114 years of
/// at most 366 days from 1970, which is less than 2^43 seconds.
pub const CLOCK_LIMIT_SECS: i64 = 8_796_093_022_208;

/// Reads the system clock with `chrono::Utc::now` and returns the instant's
/// Unix timestamp, from `DateTime::timestamp`, and its nanoseconds within
/// the second, from `DateTime::timestamp_subsec_nanos`. Which instant comes
/// back depends on the clock. Whatever it is, it is a date that `chrono`
/// holds: its seconds lie within `CLOCK_LIMIT_SECS` of the epoch, and its
/// nanoseconds stay below two seconds (one second, but for a leap second).
#[verifier::external_body]
fn read_utc_clock() -> (t: Timestamp)
    ensures
        t.within_clock_range(),
{
    let now = chrono::Utc::now();
    Timestamp { secs: now.timestamp(), nanos: now.timestamp_subsec_nanos() }
}

impl Duration {
    /// The span in nanoseconds.
    pub open spec fn as_nanos(self) -> int {
        self.secs as int * 1_000_000_000 + self.nanos as int
    }

    pub fn zero() -> (d: Duration)
        ensures
            d.as_nanos() == 0,
    {
        Duration { secs: 0, nanos: 0 }
    }

    pub fn seconds(secs: i64) -> (d: Duration)
        ensures
            d == (Duration { secs, nanos: 0 }),
            d.as_nanos() == secs as int * 1_000_000_000,
    {
        Duration { secs, nanos: 0 }
    }

    /// A span of `minutes` minutes. The number of seconds must fit in an `i64`.
    pub fn minutes(minutes: i64) -> (d: Duration)
        requires
            i64::MIN <= minutes as int * 60 <= i64::MAX,
        ensures
            d == (Duration { secs: (minutes as int * 60) as i64, nanos: 0 }),
            d.as_nanos() == minutes as int * 60 * 1_000_000_000,
    {
        Duration { secs: minutes * 60, nanos: 0 }
    }

    /// A span of `hours` hours. The number of seconds must fit in an `i64`.
    pub fn hours(hours: i64) -> (d: Duration)
        requires
            i64::MIN <= hours as int * 3600 <= i64::MAX,
        ensures
            d == (Duration { secs: (hours as int * 3600) as i64, nanos: 0 }),
            d.as_nanos() == hours as int * 3600 * 1_000_000_000,
    {
        Duration { secs: hours * 3600, nanos: 0 }
    }

    /// A span of `hours` hours, or `None` where the number of seconds does
    /// not fit in an `i64`.
    pub fn checked_hours(hours: i64) -> (d: Option<Duration>)
        ensures
            d is Some <==> i64::MIN <= hours as int * 3600 <= i64::MAX,
            d matches Some(span) ==> span == (Duration {
                secs: (hours as int * 3600) as i64,
                nanos: 0,
            }),
    {
        match hours.checked_mul(3600) {
            Some(secs) => Some(Duration { secs, nanos: 0 }),
            None => None,
        }
    }

    pub fn to_nanos(&self) -> (n: i128)
        ensures
            n == self.as_nanos(),
    {
        (self.secs as i128) * NANOS_PER_SEC + (self.nanos as i128)
    }
}

impl Timestamp {
    /// Nanoseconds since the Unix epoch.
    pub open spec fn as_nanos(self) -> int {
        self.secs as int * 1_000_000_000 + self.nanos as int
    }

    pub fn new(secs: i64, nanos: u32) -> (t: Timestamp)
        ensures
            t == (Timestamp { secs, nanos }),
    {
        Timestamp { secs, nanos }
    }

    /// An instant as the system clock can give it: its seconds lie within
    /// `CLOCK_LIMIT_SECS` of the epoch, and its nanoseconds below two
    /// seconds.
    pub open spec fn within_clock_range(self) -> bool {
        &&& -CLOCK_LIMIT_SECS <= self.secs <= CLOCK_LIMIT_SECS
        &&& self.nanos < 2_000_000_000
    }

    /// The current instant of the system clock. Which one it is depends on
    /// the clock; it always lies within the range of the clock.
    pub fn now() -> (t: Timestamp)
        ensures
            t.within_clock_range(),
    {
        read_utc_clock()
    }

    pub fn to_nanos(&self) -> (n: i128)
        ensures
            n == self.as_nanos(),
    {
        (self.secs as i128) * NANOS_PER_SEC + (self.nanos as i128)
    }

    /// Whether `self` lies strictly before `other`.
    pub fn is_before(&self, other: &Timestamp) -> (b: bool)
        ensures
            b == (self.as_nanos() < other.as_nanos()),
    {
        self.to_nanos() < other.to_nanos()
    }

    /// Whether `self` lies strictly after `other`.
    pub fn is_after(&self, other: &Timestamp) -> (b: bool)
        ensures
            b == (self.as_nanos() > other.as_nanos()),
    {
        self.to_nanos() > other.to_nanos()
    }

    /// Nanoseconds from `earlier` to `self`; negative where `self` is the
    /// earlier one.
    pub fn nanos_since(&self, earlier: &Timestamp) -> (n: i128)
        ensures
            n == self.as_nanos() - earlier.as_nanos(),
    {
        self.to_nanos() - earlier.to_nanos()
    }

    /// The instant `span` after `self`, with its nanoseconds below one
    /// second, or `None` where its seconds do not fit in an `i64`.
    pub fn checked_add(&self, span: &Duration) -> (r: Option<Timestamp>)
        ensures
            r is Some <==> i64::MIN as int * 1_000_000_000 <= self.as_nanos() + span.as_nanos()
                < (i64::MAX as int + 1) * 1_000_000_000,
            r matches Some(t) ==> t.as_nanos() == self.as_nanos() + span.as_nanos() && t.nanos
                < 1_000_000_000,
    {
        let sub_second: u64 = self.nanos as u64 + span.nanos as u64;
        let carry: u64 = sub_second / 1_000_000_000;
        let nanos: u64 = sub_second % 1_000_000_000;
        let secs: i128 = self.secs as i128 + span.secs as i128 + carry as i128;
        if secs < i64::MIN as i128 || secs > i64::MAX as i128 {
            None
        } else {
            Some(Timestamp { secs: secs as i64, nanos: nanos as u32 })
        }
    }
}

} // verus!
