//! Conversions between `DateTime` and the host clock's `SystemTime`.
use vstd::prelude::*;
use core::time::Duration;
use std::time::{SystemTime, SystemTimeError};
use crate::civil::{NANOS_BEFORE_EPOCH, NANOS_TO_YEAR_10000};
use crate::datetime::{DateTime, MAX_OFFSET, clamp_offset};
use crate::duration::duration_nanos;

use crate::local::offset_sec;

verus! {

#[verifier::external_type_specification]
#[verifier::external_body]
pub struct ExSystemTime(std::time::SystemTime);

#[verifier::external_type_specification]
#[verifier::external_body]
pub struct ExSystemTimeError(std::time::SystemTimeError);

/// The signed number of nanoseconds from 1970-01-01T00:00:00Z to a clock reading.
pub uninterp spec fn unix_nanos(t: SystemTime) -> int;

/// How far, in nanoseconds, a `SystemTimeError` says the reading lay before the other one.
pub uninterp spec fn error_nanos(e: SystemTimeError) -> int;

/// Relies on `SystemTime::now`: the clock's reading, of which nothing is promised.
pub assume_specification[ std::time::SystemTime::now ]() -> SystemTime;

/// Relies on `SystemTime::duration_since`: the time since `earlier`, or an error holding
/// the time to it when `earlier` is later.
pub assume_specification[ std::time::SystemTime::duration_since ](
    t: &SystemTime,
    earlier: SystemTime,
) -> (r: Result<Duration, SystemTimeError>)
    ensures
        r matches Ok(d) ==> duration_nanos(d) == unix_nanos(*t) - unix_nanos(earlier),
        r matches Err(e) ==> error_nanos(e) == unix_nanos(earlier) - unix_nanos(*t),
;

/// Relies on `SystemTimeError::duration`: how far the reading lay before the other one.
pub assume_specification[ std::time::SystemTimeError::duration ](e: &SystemTimeError) -> (r: Duration)
    ensures
        duration_nanos(r) == error_nanos(*e),
;

/// Relies on `SystemTime::checked_add`: `None` where the sum cannot be held.
pub assume_specification[ std::time::SystemTime::checked_add ](
    t: &SystemTime,
    d: Duration,
) -> (r: Option<SystemTime>)
    ensures
        r matches Some(u) ==> unix_nanos(u) == unix_nanos(*t) + duration_nanos(d),
;

/// Relies on `SystemTime::checked_sub`: `None` where the difference cannot be held.
pub assume_specification[ std::time::SystemTime::checked_sub ](
    t: &SystemTime,
    d: Duration,
) -> (r: Option<SystemTime>)
    ensures
        r matches Some(u) ==> unix_nanos(u) == unix_nanos(*t) - duration_nanos(d),
;

/// Relies on `std::time::UNIX_EPOCH`: 1970-01-01T00:00:00Z.
#[verifier::external_body]
fn unix_epoch() -> (r: SystemTime)
    ensures
        unix_nanos(r) == 0,
{
    std::time::UNIX_EPOCH
}

/// Lowest instant taken from the clock: one day after 0000-01-01T00:00:00Z.
pub const CLOCK_MIN: i128 = -NANOS_BEFORE_EPOCH + 86_400_000_000_000;

/// Highest instant taken from the clock: one day before 10000-01-01T00:00:00Z.
pub const CLOCK_MAX: i128 = NANOS_TO_YEAR_10000 - 86_400_000_000_000;

/// `n` limited to the instants taken from the clock.
pub open spec fn clamp_clock(n: int) -> int {
    if n < CLOCK_MIN {
        CLOCK_MIN as int
    } else if n > CLOCK_MAX {
        CLOCK_MAX as int
    } else {
        n
    }
}

/// A signed count of nanoseconds since the epoch from a `SystemTime`, limited to the
/// instants that a `DateTime` can show at any offset.
fn system_time_nanos(s: &SystemTime) -> (r: i128)
    ensures
        r == clamp_clock(unix_nanos(*s)),
        CLOCK_MIN <= r <= CLOCK_MAX,
{
    let n: i128 = match s.duration_since(unix_epoch()) {
        Ok(d) => {
            let v = d.as_nanos();
            if v > CLOCK_MAX as u128 {
                CLOCK_MAX
            } else {
                v as i128
            }
        },
        Err(e) => {
            let v = e.duration().as_nanos();
            if v > (-CLOCK_MIN) as u128 {
                CLOCK_MIN
            } else {
                -(v as i128)
            }
        },
    };
    if n < CLOCK_MIN {
        CLOCK_MIN
    } else if n > CLOCK_MAX {
        CLOCK_MAX
    } else {
        n
    }
}

impl DateTime {
    /// The instant that the clock reading `s` names, shown at `offset` (limited to a day).
    /// A reading within a day of the ends of the years 0 to 9999, or past them, is taken
    /// as that bound.
    pub fn from_system_time(s: SystemTime, offset: i32) -> (r: DateTime)
        ensures
            r@.2 == clamp_offset(offset as int),
            r.instant() == clamp_clock(unix_nanos(s)),
            CLOCK_MIN <= r.instant() <= CLOCK_MAX,
    {
        let n = system_time_nanos(&s);
        let mut o = offset;
        if o > MAX_OFFSET {
            o = MAX_OFFSET;
        }
        if o < -MAX_OFFSET {
            o = -MAX_OFFSET;
        }
        DateTime::from_instant(n, o)
    }

    /// The clock's instant now, at UTC.
    pub fn utc() -> (r: DateTime)
        ensures
            r@.2 == 0,
            CLOCK_MIN <= r.instant() <= CLOCK_MAX,
    {
        DateTime::from_system_time(SystemTime::now(), 0)
    }

    /// The clock's instant now, at the host's offset.
    pub fn now() -> (r: DateTime)
        ensures
            -MAX_OFFSET <= r@.2 <= MAX_OFFSET,
            CLOCK_MIN <= r.instant() <= CLOCK_MAX,
    {
        let o = offset_sec();
        DateTime::from_system_time(SystemTime::now(), o)
    }

    /// The clock reading of this instant; the epoch itself where the host's clock cannot
    /// hold it.
    pub fn to_system_time(&self) -> (r: SystemTime)
        ensures
            unix_nanos(r) == self.instant() || unix_nanos(r) == 0,
    {
        let n = self.unix_timestamp_nano();
        let a: u128 = if n >= 0 {
            n as u128
        } else {
            (-n) as u128
        };
        let d = Duration::new((a / 1_000_000_000) as u64, (a % 1_000_000_000) as u32);
        let t = if n >= 0 {
            unix_epoch().checked_add(d)
        } else {
            unix_epoch().checked_sub(d)
        };
        match t {
            Some(t) => t,
            None => unix_epoch(),
        }
    }
}

impl From<SystemTime> for DateTime {
    /// The clock reading at UTC; see `from_system_time`.
    fn from(v: SystemTime) -> (r: DateTime)
        ensures
            r@.2 == 0,
            r.instant() == clamp_clock(unix_nanos(v)),
    {
        DateTime::from_system_time(v, 0)
    }
}

impl vstd::std_specs::convert::FromSpecImpl<SystemTime> for DateTime {
    open spec fn obeys_from_spec() -> bool {
        false
    }

    open spec fn from_spec(v: SystemTime) -> DateTime {
        vstd::pervasive::arbitrary()
    }
}

impl From<DateTime> for SystemTime {
    /// See `to_system_time`.
    fn from(v: DateTime) -> (r: SystemTime)
        ensures
            unix_nanos(r) == v.instant() || unix_nanos(r) == 0,
    {
        v.to_system_time()
    }
}

impl vstd::std_specs::convert::FromSpecImpl<DateTime> for SystemTime {
    open spec fn obeys_from_spec() -> bool {
        false
    }

    open spec fn from_spec(v: DateTime) -> SystemTime {
        vstd::pervasive::arbitrary()
    }
}

} // verus!
