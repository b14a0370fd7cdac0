//! A wall-clock reading together with its UTC offset, and the instant it denotes.
use vstd::prelude::*;
use core::time::Duration;
use crate::civil::{NANOS_BEFORE_EPOCH, NANOS_PER_SEC, NANOS_TO_YEAR_10000, from_civil_nanos, in_civil_range, instant_of, to_civil_nanos, weekday_of, weekday_of_instant};
use crate::date::Date;
use crate::duration::duration_nanos;
use crate::time_of_day::{Time, midnight};

verus! {

/// Largest offset from UTC, in seconds, that a value can carry.
pub const MAX_OFFSET: i32 = 86399;

/// `o` limited to `-MAX_OFFSET..=MAX_OFFSET`.
pub open spec fn clamp_offset(o: int) -> int {
    if o > MAX_OFFSET {
        MAX_OFFSET as int
    } else if o < -MAX_OFFSET {
        -MAX_OFFSET
    } else {
        o
    }
}

/// `o` limited to `-MAX_OFFSET..=MAX_OFFSET`.
pub fn limit_offset(o: i32) -> (r: i32)
    ensures
        r == clamp_offset(o as int),
{
    if o > MAX_OFFSET {
        MAX_OFFSET
    } else if o < -MAX_OFFSET {
        -MAX_OFFSET
    } else {
        o
    }
}

/// Whether a date, a time and an offset make a value: each valid, the offset within a day.
pub open spec fn valid_parts(d: Date, t: Time, offset: int) -> bool {
    d.wf() && t.wf() && -MAX_OFFSET <= offset <= MAX_OFFSET
}

/// Whether the instant `n` can be shown at `offset`: the wall-clock reading falls in the
/// years 0 to 9999.
pub open spec fn showable(n: int, offset: int) -> bool {
    in_civil_range(n + offset * NANOS_PER_SEC)
}

/// A date and time of day as read on a clock at a fixed offset from UTC.
///
/// Equality and order go by the instant denoted, whatever the offsets.
#[derive(Clone, Copy, Debug)]
pub struct DateTime {
    date: Date,
    time: Time,
    offset: i32,
}

impl View for DateTime {
    type V = (Date, Time, int);

    closed spec fn view(&self) -> (Date, Time, int) {
        (self.date, self.time, self.offset as int)
    }
}

impl DateTime {
    #[verifier::type_invariant]
    spec fn inv(self) -> bool {
        valid_parts(self.date, self.time, self.offset as int)
    }

    /// The absolute instant, in nanoseconds since 1970-01-01T00:00:00Z.
    pub open spec fn instant(&self) -> int {
        instant_of(self@.0, self@.1, self@.2)
    }

    /// Each value is made of valid parts.
    pub fn valid(&self)
        ensures
            valid_parts(self@.0, self@.1, self@.2),
            showable(self.instant(), self@.2),
    {
        proof {
            use_type_invariant(self);
        }
        let _ = to_civil_nanos(&self.date, &self.time);
    }

    /// The value with the given wall-clock reading and offset.
    pub fn from_parts(date: Date, time: Time, offset: i32) -> (r: DateTime)
        requires
            valid_parts(date, time, offset as int),
        ensures
            r@ == (date, time, offset as int),
    {
        DateTime { date, time, offset }
    }

    /// The value with the given wall-clock reading and an offset limited to
    /// `-86399..=86399` seconds; when the date or the time is not valid, the epoch
    /// 1970-01-01T00:00:00Z.
    pub fn from_parts_checked(date: Date, time: Time, offset: i32) -> (r: DateTime)
        ensures
            r@ == (if date.wf() && time.wf() {
                (date, time, clamp_offset(offset as int))
            } else {
                (Date { day: 1, mon: 1, year: 1970 }, midnight(), 0)
            }),
    {
        let mut o = offset;
        if o > MAX_OFFSET {
            o = MAX_OFFSET;
        }
        if o < -MAX_OFFSET {
            o = -MAX_OFFSET;
        }
        if date.is_valid() && time.is_valid() {
            DateTime { date, time, offset: o }
        } else {
            DateTime {
                date: Date { day: 1, mon: 1, year: 1970 },
                time: Time { nano: 0, sec: 0, minute: 0, hour: 0 },
                offset: 0,
            }
        }
    }

    /// The value that shows the instant `n` at `offset`.
    pub fn from_instant(n: i128, offset: i32) -> (r: DateTime)
        requires
            -MAX_OFFSET <= offset <= MAX_OFFSET,
            showable(n as int, offset as int),
        ensures
            r@.2 == offset,
            r.instant() == n,
    {
        let (date, time) = from_civil_nanos(n + offset as i128 * NANOS_PER_SEC);
        DateTime { date, time, offset }
    }

    /// The absolute instant, in nanoseconds since 1970-01-01T00:00:00Z.
    pub fn unix_timestamp_nano(&self) -> (r: i128)
        ensures
            r == self.instant(),
            showable(r as int, self@.2),
            -MAX_OFFSET <= self@.2 <= MAX_OFFSET,
    {
        proof {
            use_type_invariant(self);
        }
        to_civil_nanos(&self.date, &self.time) - self.offset as i128 * NANOS_PER_SEC
    }

    /// Seconds since the epoch, rounded down.
    pub fn unix_timestamp(&self) -> (r: i64)
        ensures
            r == self.instant() / 1_000_000_000,
    {
        let n = self.unix_timestamp_nano();
        floor_div(n, 1_000_000_000) as i64
    }

    /// Milliseconds since the epoch, rounded down.
    pub fn unix_timestamp_millis(&self) -> (r: i64)
        ensures
            r == self.instant() / 1_000_000,
    {
        let n = self.unix_timestamp_nano();
        floor_div(n, 1_000_000) as i64
    }

    /// Microseconds since the epoch, rounded down.
    pub fn unix_timestamp_micros(&self) -> (r: i64)
        ensures
            r == self.instant() / 1_000,
    {
        let n = self.unix_timestamp_nano();
        floor_div(n, 1_000) as i64
    }

    /// The same instant shown at another offset, limited to `-86399..=86399` seconds.
    pub fn set_offset(self, offset_sec: i32) -> (r: DateTime)
        requires
            showable(self.instant(), clamp_offset(offset_sec as int)),
        ensures
            r@.2 == clamp_offset(offset_sec as int),
            r.instant() == self.instant(),
    {
        let mut o = offset_sec;
        if o > MAX_OFFSET {
            o = MAX_OFFSET;
        }
        if o < -MAX_OFFSET {
            o = -MAX_OFFSET;
        }
        let n = self.unix_timestamp_nano();
        DateTime::from_instant(n, o)
    }

    /// The value `nanos` nanoseconds later (earlier when negative), shown at the same offset.
    pub fn add_nanos(self, nanos: i128) -> (r: DateTime)
        requires
            showable(self.instant() + nanos, self@.2),
        ensures
            r@.2 == self@.2,
            r.instant() == self.instant() + nanos,
    {
        proof {
            use_type_invariant(&self);
        }
        let n = self.unix_timestamp_nano();
        DateTime::from_instant(n + nanos, self.offset)
    }

    /// The value a duration later, shown at the same offset; `+` and `Add::add` do the same.
    pub fn add_duration(self, d: Duration) -> (r: DateTime)
        requires
            showable(self.instant() + duration_nanos(d), self@.2),
        ensures
            r@.2 == self@.2,
            r.instant() == self.instant() + duration_nanos(d),
    {
        let _ = self.unix_timestamp_nano();
        let n = d.as_nanos();
        self.add_nanos(n as i128)
    }

    /// The value a duration earlier, shown at the same offset; `-` and `Sub::sub` do the
    /// same.
    pub fn sub_duration(self, d: Duration) -> (r: DateTime)
        requires
            showable(self.instant() - duration_nanos(d), self@.2),
        ensures
            r@.2 == self@.2,
            r.instant() == self.instant() - duration_nanos(d),
    {
        let _ = self.unix_timestamp_nano();
        let n = d.as_nanos();
        self.add_nanos(-(n as i128))
    }

    /// The value `sec` seconds later (earlier when negative), shown at the same offset.
    pub fn add_sub_sec(self, sec: i64) -> (r: DateTime)
        requires
            showable(self.instant() + sec * NANOS_PER_SEC, self@.2),
        ensures
            r@.2 == self@.2,
            r.instant() == self.instant() + sec * NANOS_PER_SEC,
    {
        self.add_nanos(sec as i128 * NANOS_PER_SEC)
    }

    /// Whether this instant comes before the other one.
    pub fn before(&self, other: &DateTime) -> (r: bool)
        ensures
            r == (self.instant() < other.instant()),
    {
        self.unix_timestamp_nano() < other.unix_timestamp_nano()
    }

    /// Whether this instant comes after the other one.
    pub fn after(&self, other: &DateTime) -> (r: bool)
        ensures
            r == (self.instant() > other.instant()),
    {
        self.unix_timestamp_nano() > other.unix_timestamp_nano()
    }

    /// Order of the two instants, whatever the offsets.
    pub fn cmp(&self, other: &DateTime) -> (r: core::cmp::Ordering)
        ensures
            r == cmp_instants(self.instant(), other.instant()),
    {
        let a = self.unix_timestamp_nano();
        let b = other.unix_timestamp_nano();
        if a < b {
            core::cmp::Ordering::Less
        } else if a > b {
            core::cmp::Ordering::Greater
        } else {
            core::cmp::Ordering::Equal
        }
    }

    /// The value at UTC whose instant is `nano` nanoseconds since the epoch.
    pub fn from_timestamp_nano(nano: i128) -> (r: DateTime)
        requires
            in_civil_range(nano as int),
        ensures
            r@.2 == 0,
            r.instant() == nano,
    {
        DateTime::from_instant(nano, 0)
    }

    /// The value at UTC whose instant is `sec` seconds since the epoch.
    pub fn from_timestamp(sec: i64) -> (r: DateTime)
        requires
            in_civil_range(sec * NANOS_PER_SEC),
        ensures
            r@.2 == 0,
            r.instant() == sec * NANOS_PER_SEC,
    {
        DateTime::from_instant(sec as i128 * NANOS_PER_SEC, 0)
    }

    /// The value at UTC whose instant is `ms` milliseconds since the epoch.
    pub fn from_timestamp_millis(ms: i64) -> (r: DateTime)
        requires
            in_civil_range(ms * 1_000_000),
        ensures
            r@.2 == 0,
            r.instant() == ms * 1_000_000,
    {
        DateTime::from_instant(ms as i128 * 1_000_000, 0)
    }

    /// The value at UTC whose instant is `micros` microseconds since the epoch.
    pub fn from_timestamp_micros(micros: i64) -> (r: DateTime)
        requires
            in_civil_range(micros * 1_000),
        ensures
            r@.2 == 0,
            r.instant() == micros * 1_000,
    {
        DateTime::from_instant(micros as i128 * 1_000, 0)
    }

    /// Day of the week of the instant in UTC: 0 is Sunday, 1 Monday, ..., 6 Saturday.
    pub fn week_day(&self) -> (r: u8)
        ensures
            r == weekday_of(self@.0, self@.1, self@.2),
            r <= 6,
    {
        proof {
            use_type_invariant(self);
        }
        let n = self.unix_timestamp_nano();
        proof {
            assert(-NANOS_BEFORE_EPOCH - 86400000000000 <= n < NANOS_TO_YEAR_10000 + 86400000000000);
        }
        weekday_of_instant(n)
    }

    pub fn nano(&self) -> (r: u32)
        ensures
            r == self@.1.nano,
    {
        self.time.nano
    }

    /// Milliseconds of the second.
    pub fn ms(&self) -> (r: u16)
        ensures
            r == self@.1.nano / 1_000_000,
    {
        proof {
            use_type_invariant(self);
        }
        (self.time.nano / 1_000_000) as u16
    }

    /// Microseconds of the second.
    pub fn micro(&self) -> (r: u32)
        ensures
            r == self@.1.nano / 1_000,
    {
        self.time.nano / 1_000
    }

    pub fn sec(&self) -> (r: u8)
        ensures
            r == self@.1.sec,
    {
        self.time.sec
    }

    pub fn minute(&self) -> (r: u8)
        ensures
            r == self@.1.minute,
    {
        self.time.minute
    }

    pub fn hour(&self) -> (r: u8)
        ensures
            r == self@.1.hour,
    {
        self.time.hour
    }

    pub fn day(&self) -> (r: u8)
        ensures
            r == self@.0.day,
    {
        self.date.day
    }

    pub fn mon(&self) -> (r: u8)
        ensures
            r == self@.0.mon,
    {
        self.date.mon
    }

    pub fn year(&self) -> (r: i32)
        ensures
            r == self@.0.year,
    {
        self.date.year as i32
    }

    /// Offset from UTC in seconds.
    pub fn offset(&self) -> (r: i32)
        ensures
            r == self@.2,
    {
        self.offset
    }

    /// The offset as hours, minutes and seconds, each with the offset's sign.
    pub fn offset_hms(&self) -> (r: (i8, i8, i8))
        ensures
            r.0 * 3600 + r.1 * 60 + r.2 == self@.2,
            -59 <= r.1 <= 59,
            -59 <= r.2 <= 59,
            self@.2 >= 0 ==> r.0 >= 0 && r.1 >= 0 && r.2 >= 0,
            self@.2 <= 0 ==> r.0 <= 0 && r.1 <= 0 && r.2 <= 0,
    {
        proof {
            use_type_invariant(self);
        }
        let a: i32 = if self.offset < 0 {
            -self.offset
        } else {
            self.offset
        };
        let h = (a / 3600) as i8;
        let m = (a % 3600 / 60) as i8;
        let s = (a % 60) as i8;
        if self.offset < 0 {
            (-h, -m, -s)
        } else {
            (h, m, s)
        }
    }

    /// The time between the two instants, whichever comes first.
    pub fn difference(&self, other: &DateTime) -> (r: Duration)
        ensures
            duration_nanos(r) == if self.instant() >= other.instant() {
                self.instant() - other.instant()
            } else {
                other.instant() - self.instant()
            },
    {
        let a = self.unix_timestamp_nano();
        let b = other.unix_timestamp_nano();
        let diff: u128 = if a >= b {
            (a - b) as u128
        } else {
            (b - a) as u128
        };
        Duration::new((diff / 1_000_000_000) as u64, (diff % 1_000_000_000) as u32)
    }

    /// The same wall-clock reading with its fraction of the second set to `micros`
    /// microseconds, when that is below one second; otherwise the value is unchanged.
    pub fn set_nano(self, micros: u32) -> (r: DateTime)
        ensures
            r@ == (if micros <= 999_999 {
                (self@.0, Time { nano: (micros * 1000) as u32, ..self@.1 }, self@.2)
            } else {
                self@
            }),
    {
        proof {
            use_type_invariant(&self);
        }
        if micros <= 999_999 {
            DateTime { time: Time { nano: micros * 1000, ..self.time }, ..self }
        } else {
            self
        }
    }

    /// The date part.
    pub fn date_part(&self) -> (r: Date)
        ensures
            r == self@.0,
            r.wf(),
    {
        proof {
            use_type_invariant(self);
        }
        self.date
    }

    /// The time-of-day part.
    pub fn time_part(&self) -> (r: Time)
        ensures
            r == self@.1,
            r.wf(),
    {
        proof {
            use_type_invariant(self);
        }
        self.time
    }
}

impl PartialEq for DateTime {
    /// Whether both denote the same instant, whatever their offsets.
    fn eq(&self, other: &DateTime) -> (r: bool)
        ensures
            r == (self.instant() == other.instant()),
    {
        self.unix_timestamp_nano() == other.unix_timestamp_nano()
    }
}

impl vstd::std_specs::cmp::PartialEqSpecImpl for DateTime {
    open spec fn obeys_eq_spec() -> bool {
        true
    }

    open spec fn eq_spec(&self, other: &DateTime) -> bool {
        self.instant() == other.instant()
    }
}

impl Eq for DateTime {

}

impl PartialOrd for DateTime {
    /// Order of the two instants, whatever the offsets.
    fn partial_cmp(&self, other: &DateTime) -> (r: Option<core::cmp::Ordering>)
        ensures
            r == Some(cmp_instants(self.instant(), other.instant())),
    {
        Some(self.cmp(other))
    }
}

impl vstd::std_specs::cmp::PartialOrdSpecImpl for DateTime {
    open spec fn obeys_partial_cmp_spec() -> bool {
        true
    }

    open spec fn partial_cmp_spec(&self, other: &DateTime) -> Option<core::cmp::Ordering> {
        Some(cmp_instants(self.instant(), other.instant()))
    }
}

impl core::ops::Add<Duration> for DateTime {
    type Output = DateTime;

    fn add(self, rhs: Duration) -> (r: DateTime)
        ensures
            r@.2 == self@.2,
            r.instant() == self.instant() + duration_nanos(rhs),
    {
        self.add_duration(rhs)
    }
}

impl vstd::std_specs::ops::AddSpecImpl<Duration> for DateTime {
    open spec fn obeys_add_spec() -> bool {
        false
    }

    open spec fn add_req(self, rhs: Duration) -> bool {
        showable(self.instant() + duration_nanos(rhs), self@.2)
    }

    open spec fn add_spec(self, rhs: Duration) -> DateTime {
        self
    }
}

impl core::ops::Sub<Duration> for DateTime {
    type Output = DateTime;

    fn sub(self, rhs: Duration) -> (r: DateTime)
        ensures
            r@.2 == self@.2,
            r.instant() == self.instant() - duration_nanos(rhs),
    {
        self.sub_duration(rhs)
    }
}

impl vstd::std_specs::ops::SubSpecImpl<Duration> for DateTime {
    open spec fn obeys_sub_spec() -> bool {
        false
    }

    open spec fn sub_req(self, rhs: Duration) -> bool {
        showable(self.instant() - duration_nanos(rhs), self@.2)
    }

    open spec fn sub_spec(self, rhs: Duration) -> DateTime {
        self
    }
}

impl<'a> core::ops::Add<&'a Duration> for DateTime {
    type Output = DateTime;

    fn add(self, rhs: &'a Duration) -> (r: DateTime)
        ensures
            r@.2 == self@.2,
            r.instant() == self.instant() + duration_nanos(*rhs),
    {
        self.add_duration(*rhs)
    }
}

impl<'a> vstd::std_specs::ops::AddSpecImpl<&'a Duration> for DateTime {
    open spec fn obeys_add_spec() -> bool {
        false
    }

    open spec fn add_req(self, rhs: &'a Duration) -> bool {
        showable(self.instant() + duration_nanos(*rhs), self@.2)
    }

    open spec fn add_spec(self, rhs: &'a Duration) -> DateTime {
        self
    }
}

impl<'a> core::ops::Sub<&'a Duration> for DateTime {
    type Output = DateTime;

    fn sub(self, rhs: &'a Duration) -> (r: DateTime)
        ensures
            r@.2 == self@.2,
            r.instant() == self.instant() - duration_nanos(*rhs),
    {
        self.sub_duration(*rhs)
    }
}

impl<'a> vstd::std_specs::ops::SubSpecImpl<&'a Duration> for DateTime {
    open spec fn obeys_sub_spec() -> bool {
        false
    }

    open spec fn sub_req(self, rhs: &'a Duration) -> bool {
        showable(self.instant() - duration_nanos(*rhs), self@.2)
    }

    open spec fn sub_spec(self, rhs: &'a Duration) -> DateTime {
        self
    }
}

impl core::ops::Sub<DateTime> for DateTime {
    type Output = Duration;

    /// The time between the two instants, whichever comes first.
    fn sub(self, rhs: DateTime) -> (r: Duration)
        ensures
            duration_nanos(r) == if self.instant() >= rhs.instant() {
                self.instant() - rhs.instant()
            } else {
                rhs.instant() - self.instant()
            },
    {
        self.difference(&rhs)
    }
}

impl vstd::std_specs::ops::SubSpecImpl<DateTime> for DateTime {
    open spec fn obeys_sub_spec() -> bool {
        false
    }

    open spec fn sub_req(self, rhs: DateTime) -> bool {
        true
    }

    open spec fn sub_spec(self, rhs: DateTime) -> Duration {
        vstd::pervasive::arbitrary()
    }
}

impl From<Date> for DateTime {
    /// Midnight of the date at UTC.
    fn from(arg: Date) -> (r: DateTime)
        ensures
            arg.wf() ==> r@ == (arg, midnight(), 0int),
    {
        DateTime::from_parts_checked(arg, Time { nano: 0, sec: 0, minute: 0, hour: 0 }, 0)
    }
}

impl vstd::std_specs::convert::FromSpecImpl<Date> for DateTime {
    open spec fn obeys_from_spec() -> bool {
        false
    }

    open spec fn from_spec(v: Date) -> DateTime {
        vstd::pervasive::arbitrary()
    }
}

impl From<(Date, i32)> for DateTime {
    /// Midnight of the date as read at the given offset.
    fn from(arg: (Date, i32)) -> (r: DateTime)
        ensures
            arg.0.wf() ==> r@ == (arg.0, midnight(), clamp_offset(arg.1 as int)),
    {
        DateTime::from_parts_checked(arg.0, Time { nano: 0, sec: 0, minute: 0, hour: 0 }, arg.1)
    }
}

impl vstd::std_specs::convert::FromSpecImpl<(Date, i32)> for DateTime {
    open spec fn obeys_from_spec() -> bool {
        false
    }

    open spec fn from_spec(v: (Date, i32)) -> DateTime {
        vstd::pervasive::arbitrary()
    }
}

impl From<Time> for DateTime {
    /// The time of day on 0000-01-01 at UTC.
    fn from(arg: Time) -> (r: DateTime)
        ensures
            arg.wf() ==> r@ == (Date { day: 1, mon: 1, year: 0 }, arg, 0int),
    {
        DateTime::from_parts_checked(Date { day: 1, mon: 1, year: 0 }, arg, 0)
    }
}

impl vstd::std_specs::convert::FromSpecImpl<Time> for DateTime {
    open spec fn obeys_from_spec() -> bool {
        false
    }

    open spec fn from_spec(v: Time) -> DateTime {
        vstd::pervasive::arbitrary()
    }
}

impl From<(Date, Time)> for DateTime {
    /// The wall-clock reading at UTC.
    fn from(arg: (Date, Time)) -> (r: DateTime)
        ensures
            arg.0.wf() && arg.1.wf() ==> r@ == (arg.0, arg.1, 0int),
    {
        DateTime::from_parts_checked(arg.0, arg.1, 0)
    }
}

impl vstd::std_specs::convert::FromSpecImpl<(Date, Time)> for DateTime {
    open spec fn obeys_from_spec() -> bool {
        false
    }

    open spec fn from_spec(v: (Date, Time)) -> DateTime {
        vstd::pervasive::arbitrary()
    }
}

impl From<(Date, Time, i32)> for DateTime {
    /// The wall-clock reading as read at the given offset.
    fn from(arg: (Date, Time, i32)) -> (r: DateTime)
        ensures
            arg.0.wf() && arg.1.wf() ==> r@ == (arg.0, arg.1, clamp_offset(arg.2 as int)),
    {
        DateTime::from_parts_checked(arg.0, arg.1, arg.2)
    }
}

impl vstd::std_specs::convert::FromSpecImpl<(Date, Time, i32)> for DateTime {
    open spec fn obeys_from_spec() -> bool {
        false
    }

    open spec fn from_spec(v: (Date, Time, i32)) -> DateTime {
        vstd::pervasive::arbitrary()
    }
}

impl From<DateTime> for Date {
    fn from(arg: DateTime) -> (r: Date) {
        arg.date_part()
    }
}

impl vstd::std_specs::convert::FromSpecImpl<DateTime> for Date {
    open spec fn obeys_from_spec() -> bool {
        true
    }

    open spec fn from_spec(v: DateTime) -> Date {
        v@.0
    }
}

impl From<DateTime> for Time {
    fn from(arg: DateTime) -> (r: Time) {
        arg.time_part()
    }
}

impl vstd::std_specs::convert::FromSpecImpl<DateTime> for Time {
    open spec fn obeys_from_spec() -> bool {
        true
    }

    open spec fn from_spec(v: DateTime) -> Time {
        v@.1
    }
}

/// Order of two integers as an `Ordering`.
pub open spec fn cmp_instants(a: int, b: int) -> core::cmp::Ordering {
    if a < b {
        core::cmp::Ordering::Less
    } else if a > b {
        core::cmp::Ordering::Greater
    } else {
        core::cmp::Ordering::Equal
    }
}

/// `n / d` rounded down, for an instant `n` of the representable range.
fn floor_div(n: i128, d: i128) -> (r: i128)
    requires
        d == 1_000 || d == 1_000_000 || d == 1_000_000_000,
        -NANOS_BEFORE_EPOCH - 86_400_000_000_000 <= n < NANOS_TO_YEAR_10000 + 86_400_000_000_000,
    ensures
        r == n as int / d as int,
{
    // A whole number of days before 0000-01-01, so a multiple of `d`.
    let shift: i128 = NANOS_BEFORE_EPOCH + 86_400_000_000_000;
    let s = (n + shift) as u128;
    let q = s / (d as u128);
    proof {
        assert(shift as int % d as int == 0);
        let k = shift as int / d as int;
        assert(s as int == q * d + s as int % d as int);
        assert(n as int == (q - k) * d + s as int % d as int) by (nonlinear_arith)
            requires
                s as int == n + shift,
                s as int == q * d + s as int % d as int,
                shift as int == k * d,
        ;
        vstd::arithmetic::div_mod::lemma_fundamental_div_mod_converse(
            n as int,
            d as int,
            q - k,
            s as int % d as int,
        );
    }
    q as i128 - shift / d
}

} // verus!
