//! What the library relies on of `std::time::Duration`, and constructors by larger units.
use vstd::prelude::*;
use core::time::Duration;

verus! {

/// The length of a `Duration` in nanoseconds.
pub uninterp spec fn duration_nanos(d: Duration) -> int;

/// Relies on `Duration::as_nanos`: the whole length in nanoseconds.
pub assume_specification[ core::time::Duration::as_nanos ](d: &Duration) -> (r: u128)
    ensures
        r as int == duration_nanos(*d),
;

/// Relies on `Duration::new`: whole seconds and nanoseconds, the nanoseconds past one
/// second carried into the seconds (it panics only when that carry overflows).
pub assume_specification[ core::time::Duration::new ](secs: u64, nanos: u32) -> (r: Duration)
    requires
        secs as int + nanos as int / 1_000_000_000 <= u64::MAX,
    ensures
        duration_nanos(r) == secs as int * 1_000_000_000 + nanos as int,
;

/// Relies on `Duration::from_secs`.
pub assume_specification[ core::time::Duration::from_secs ](secs: u64) -> (r: Duration)
    ensures
        duration_nanos(r) == secs as int * 1_000_000_000,
;


/// Constructors of a duration by minutes, hours and days.
pub trait DurationFrom: Sized {
    fn from_minute(minute: u64) -> Self
        requires
            minute <= u64::MAX / 60,
    ;

    fn from_hour(hour: u64) -> Self
        requires
            hour <= u64::MAX / 3600,
    ;

    fn from_day(day: u64) -> Self
        requires
            day <= u64::MAX / 86400,
    ;
}

impl DurationFrom for Duration {
    fn from_minute(minute: u64) -> (r: Duration)
        ensures
            duration_nanos(r) == minute * 60 * 1_000_000_000,
    {
        Duration::from_secs(minute * 60)
    }

    fn from_hour(hour: u64) -> (r: Duration)
        ensures
            duration_nanos(r) == hour * 3600 * 1_000_000_000,
    {
        Duration::from_minute(hour * 60)
    }

    fn from_day(day: u64) -> (r: Duration)
        ensures
            duration_nanos(r) == day * 86400 * 1_000_000_000,
    {
        Duration::from_hour(day * 24)
    }
}

} // verus!
