//! Points in time, and the calendar work that `chrono` does for them.

use chrono::{DateTime, Utc};
use vstd::prelude::*;

verus! {

/// The first second that a calendar date can name: the start of the year -262143.
pub const FIRST_SECOND: i64 = -8_334_601_228_800;

/// The last second that a calendar date can name: the end of the year 262142.
pub const LAST_SECOND: i64 = 8_210_266_876_799;

/// The nanoseconds of a second.
pub const NANOS_PER_SECOND: u32 = 1_000_000_000;

/// The seconds of a day.
pub const DAY: i64 = 86_400;

/// A point in time: whole seconds since the start of 1970 (UTC), and the nanoseconds since
/// then. Within a leap second, which follows the last second of a minute, `secs` stays at that
/// last second and `nanos` is a full second or more.
#[derive(Clone, Copy, Debug, PartialEq, Eq, Structural)]
pub struct Moment {
    pub secs: i64,
    pub nanos: u32,
}

impl Moment {
    /// The moment lies in the range of calendar dates, and only the last second of a minute is
    /// prolonged.
    pub open spec fn wf(self) -> bool {
        &&& FIRST_SECOND <= self.secs <= LAST_SECOND
        &&& self.nanos < NANOS_PER_SECOND || (self.nanos < 2 * NANOS_PER_SECOND && self.secs as int
            % 60 == 59)
    }

    /// The moment lies before another.
    pub open spec fn is_before(self, other: Moment) -> bool {
        self.secs < other.secs || (self.secs == other.secs && self.nanos < other.nanos)
    }

    /// Whether the moment lies before another.
    pub fn precedes(&self, other: &Moment) -> (r: bool)
        ensures
            r == self.is_before(*other),
    {
        self.secs < other.secs || (self.secs == other.secs && self.nanos < other.nanos)
    }

    /// Whether the moment is one that a calendar date can name.
    pub fn is_valid(&self) -> (r: bool)
        ensures
            r == self.wf(),
    {
        FIRST_SECOND <= self.secs && self.secs <= LAST_SECOND && (self.nanos < NANOS_PER_SECOND || (
        self.nanos < 2_000_000_000 && last_of_minute(self.secs)))
    }
}

/// Whether a second is the last of its minute.
fn last_of_minute(secs: i64) -> (r: bool)
    requires
        FIRST_SECOND <= secs <= LAST_SECOND,
    ensures
        r == (secs as int % 60 == 59),
{
    // Moved by whole minutes, so that the division is one of positive numbers.
    let moved = secs as i128 + 600_000_000_000_000;
    assert(moved as int % 60 == secs as int % 60);
    moved % 60 == 59
}

/// The nanoseconds from `earlier` to `later`, with the leap second counted in which the one that
/// comes first on the clock lies.
pub open spec fn nanos_between(later: Moment, earlier: Moment) -> int {
    let clock_later = later.secs as int % DAY as int;
    let clock_earlier = earlier.secs as int % DAY as int;
    let leap: int = if clock_later > clock_earlier && earlier.nanos >= NANOS_PER_SECOND {
        1
    } else if clock_later < clock_earlier && later.nanos >= NANOS_PER_SECOND {
        -1
    } else {
        0
    };
    (later.secs - earlier.secs + leap) * NANOS_PER_SECOND + later.nanos - earlier.nanos
}

/// The whole seconds in a span of nanoseconds, rounded towards zero.
pub open spec fn whole_seconds(nanos: int) -> int {
    if nanos >= 0 {
        nanos / NANOS_PER_SECOND as int
    } else {
        -((-nanos) / NANOS_PER_SECOND as int)
    }
}

/// The whole seconds from `earlier` to `later`, rounded towards zero; negative where `later`
/// comes first.
pub open spec fn seconds_from(earlier: Moment, later: Moment) -> int {
    whole_seconds(nanos_between(later, earlier))
}

/// `chrono::DateTime::signed_duration_since` and `chrono::TimeDelta::num_seconds`: the span
/// between two points in time in whole seconds, rounded towards zero. Of leap seconds only one
/// in which a moment lies itself is counted.
#[verifier::external_body]
pub(crate) fn whole_seconds_from(earlier: Moment, later: Moment) -> (r: i64)
    requires
        earlier.wf(),
        later.wf(),
    ensures
        r == seconds_from(earlier, later),
{
    let a = DateTime::<Utc>::from_timestamp(earlier.secs, earlier.nanos).unwrap();
    let b = DateTime::<Utc>::from_timestamp(later.secs, later.nanos).unwrap();
    b.signed_duration_since(a).num_seconds()
}

/// What `chrono::DateTime::parse_from_rfc3339` reads from a text: the seconds since the start of
/// 1970 (UTC) and the nanoseconds since then, or nothing where the text is no RFC 3339 date and
/// time.
pub uninterp spec fn rfc3339(text: Seq<char>) -> Option<(i64, u32)>;

/// The moment of the calendar that a text names in the format of RFC 3339.
pub open spec fn rfc3339_moment(text: Seq<char>) -> Option<Moment> {
    match rfc3339(text) {
        Some((secs, nanos)) => if (Moment { secs, nanos }).wf() {
            Some(Moment { secs, nanos })
        } else {
            None
        },
        None => None,
    }
}

/// `chrono::DateTime::parse_from_rfc3339`, turned to UTC: the moment that the text names, which
/// is one of the calendar.
#[verifier::external_body]
pub(crate) fn parse_rfc3339(text: &str) -> (r: Option<Moment>)
    ensures
        r == (match rfc3339(text@) {
            Some((secs, nanos)) => Some((Moment { secs, nanos })),
            None => None,
        }),
        r matches Some(moment) ==> moment.wf(),
{
    match DateTime::parse_from_rfc3339(text) {
        Ok(date) => Some(
            Moment { secs: date.timestamp(), nanos: date.timestamp_subsec_nanos() },
        ),
        Err(_) => None,
    }
}

/// `chrono::Utc::now`: the time of the system clock, which is one of the calendar. Nothing ties
/// one reading to another. A system clock that stands before 1970 makes the call panic.
#[verifier::external_body]
pub(crate) fn utc_now() -> (r: Moment)
    ensures
        r.wf(),
{
    let now = Utc::now();
    Moment { secs: now.timestamp(), nanos: now.timestamp_subsec_nanos() }
}

/// The time by the system clock.
pub fn current_moment() -> (r: Moment)
    ensures
        r.wf(),
{
    utc_now()
}

} // verus!
