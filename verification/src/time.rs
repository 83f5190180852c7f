//! Instants in UTC, as the chat service and the spreadsheet spell them.
//!
//! An instant is held as whole seconds since 1970-01-01 00:00:00 UTC and
//! the nanoseconds past that second; a leap second carries 1e9 or more
//! nanoseconds. The range is that of `chrono::DateTime<Utc>`: the first
//! second of 262144 BCE (year -262143) to the last second of 262142 CE.

use chrono::{DateTime, TimeZone, Utc};
use vstd::prelude::*;

verus! {

/// The earliest whole second that an instant can have.
pub const EARLIEST_SECOND: i64 = -8334601228800i64;

/// The latest whole second that an instant can have.
pub const LATEST_SECOND: i64 = 8210266876799i64;

/// Whether `secs` seconds and `nanos` nanoseconds denote an instant: the
/// second lies in range, and nanoseconds of 1e9 or more (a leap second) sit
/// only on the last second of a minute.
pub open spec fn valid_instant(secs: int, nanos: int) -> bool {
    &&& EARLIEST_SECOND <= secs <= LATEST_SECOND
    &&& 0 <= nanos < 2_000_000_000
    &&& nanos >= 1_000_000_000 ==> secs % 60 == 59
}

/// The instant `micros` microseconds after the epoch, as (seconds,
/// nanoseconds), when it lies in range.
pub open spec fn micros_instant(micros: int) -> Option<(int, int)> {
    let secs = micros / 1_000_000;
    if EARLIEST_SECOND <= secs <= LATEST_SECOND {
        Some((secs, (micros % 1_000_000) * 1000))
    } else {
        None
    }
}

/// What `Display` for `chrono::DateTime<Utc>` prints for the instant
/// (such as `2015-05-15 00:00:00 UTC`).
pub uninterp spec fn chrono_utc_display(secs: int, nanos: int) -> Seq<char>;

/// What `str::parse::<chrono::DateTime<Utc>>()` reads from `s`, as
/// (seconds, nanoseconds).
pub uninterp spec fn chrono_utc_parse(s: Seq<char>) -> Option<(int, int)>;

/// An instant in UTC.
#[derive(Clone, Copy, Debug)]
pub struct UtcDateTime {
    secs: i64,
    nanos: u32,
}

impl UtcDateTime {
    #[verifier::type_invariant]
    spec fn inv(self) -> bool {
        valid_instant(self.secs as int, self.nanos as int)
    }

    /// Whole seconds since the epoch.
    pub closed spec fn secs(self) -> int {
        self.secs as int
    }

    /// Nanoseconds past the whole second.
    pub closed spec fn nanos(self) -> int {
        self.nanos as int
    }

    /// The instant `secs` seconds and `nanos` nanoseconds after the epoch,
    /// when that is an instant.
    pub fn from_parts(secs: i64, nanos: u32) -> (res: Option<Self>)
        ensures
            match res {
                Some(t) => valid_instant(secs as int, nanos as int) && t.secs() == secs
                    && t.nanos() == nanos,
                None => !valid_instant(secs as int, nanos as int),
            },
    {
        chrono_from_timestamp(secs, nanos)
    }

    /// Whole seconds since the epoch (`DateTime::timestamp`).
    pub fn timestamp(&self) -> (res: i64)
        ensures
            res == self.secs(),
            valid_instant(self.secs(), self.nanos()),
    {
        proof {
            use_type_invariant(self);
        }
        self.secs
    }

    /// Nanoseconds past the whole second (`DateTime::timestamp_subsec_nanos`).
    pub fn subsec_nanos(&self) -> (res: u32)
        ensures
            res == self.nanos(),
    {
        self.nanos
    }

    /// Microseconds past the whole second (`DateTime::timestamp_subsec_micros`).
    pub fn subsec_micros(&self) -> (res: u32)
        ensures
            res == self.nanos() / 1000,
    {
        self.nanos / 1000
    }

    /// Whether `self` comes after `other`.
    pub fn later_than(&self, other: &UtcDateTime) -> (res: bool)
        ensures
            res == later(*self, *other),
    {
        self.secs > other.secs || (self.secs == other.secs && self.nanos > other.nanos)
    }
}

/// Whether `a` comes after `b`: by the second first, then by the
/// nanoseconds, the order of `chrono::DateTime`.
pub open spec fn later(a: UtcDateTime, b: UtcDateTime) -> bool {
    a.secs() > b.secs() || (a.secs() == b.secs() && a.nanos() > b.nanos())
}

/// The instant `micros` microseconds after the epoch.
///
/// Trusted: calls `chrono::Utc.timestamp_micros(micros).single()`, which
/// chrono's source computes as `DateTime::from_timestamp_micros`: the second
/// is `micros.div_euclid(1_000_000)`, the nanoseconds
/// `micros.rem_euclid(1_000_000) * 1000`, and the result is `None` exactly
/// when that second falls outside the range of `NaiveDate`.
#[verifier::external_body]
pub(crate) fn instant_from_micros(micros: i64) -> (res: Option<UtcDateTime>)
    ensures
        match res {
            Some(t) => micros_instant(micros as int) == Some((t.secs(), t.nanos())),
            None => micros_instant(micros as int) is None,
        },
{
    Utc.timestamp_micros(micros).single().map(
        |dt: DateTime<Utc>| UtcDateTime { secs: dt.timestamp(), nanos: dt.timestamp_subsec_nanos() },
    )
}

/// The instant `secs` seconds and `nanos` nanoseconds after the epoch.
///
/// Trusted: calls `chrono::DateTime::from_timestamp(secs, nanos)`, whose
/// source returns `None` exactly when the day falls outside the range of
/// `NaiveDate` or the nanoseconds are 2e9 or more, or 1e9 or more on a
/// second that does not end a minute.
#[verifier::external_body]
pub(crate) fn chrono_from_timestamp(secs: i64, nanos: u32) -> (res: Option<UtcDateTime>)
    ensures
        match res {
            Some(t) => valid_instant(secs as int, nanos as int) && t.secs() == secs
                && t.nanos() == nanos,
            None => !valid_instant(secs as int, nanos as int),
        },
{
    DateTime::from_timestamp(secs, nanos).map(
        |dt: DateTime<Utc>| UtcDateTime { secs: dt.timestamp(), nanos: dt.timestamp_subsec_nanos() },
    )
}

/// The text that `Display` for `chrono::DateTime<Utc>` gives for an instant.
///
/// Trusted: builds the `DateTime<Utc>` with `DateTime::from_timestamp`
/// (which accepts every valid instant) and calls `to_string` on it; the
/// result is only named, not spelled out.
#[verifier::external_body]
pub(crate) fn chrono_display(secs: i64, nanos: u32) -> (res: String)
    requires
        valid_instant(secs as int, nanos as int),
    ensures
        res@ == chrono_utc_display(secs as int, nanos as int),
{
    DateTime::from_timestamp(secs, nanos).unwrap().to_string()
}

/// Reads an instant as `str::parse::<chrono::DateTime<Utc>>()` does.
///
/// Trusted: calls that parser; what it accepts (a relaxed RFC 3339 with an
/// offset) is only named, not spelled out.
#[verifier::external_body]
pub(crate) fn chrono_parse(s: &str) -> (res: Option<UtcDateTime>)
    ensures
        match res {
            Some(t) => chrono_utc_parse(s@) == Some((t.secs(), t.nanos())),
            None => chrono_utc_parse(s@) is None,
        },
{
    s.parse::<DateTime<Utc>>().ok().map(
        |dt: DateTime<Utc>| UtcDateTime { secs: dt.timestamp(), nanos: dt.timestamp_subsec_nanos() },
    )
}

impl UtcDateTime {
    /// The instant as `to_string` on a `chrono::DateTime<Utc>` spells it.
    pub fn to_display_string(&self) -> (res: String)
        ensures
            res@ == chrono_utc_display(self.secs(), self.nanos()),
    {
        proof {
            use_type_invariant(self);
        }
        chrono_display(self.secs, self.nanos)
    }

    /// Reads an instant as `str::parse::<chrono::DateTime<Utc>>()` does.
    pub fn parse(s: &str) -> (res: Option<UtcDateTime>)
        ensures
            match res {
                Some(t) => chrono_utc_parse(s@) == Some((t.secs(), t.nanos())),
                None => chrono_utc_parse(s@) is None,
            },
    {
        chrono_parse(s)
    }
}

} // verus!
