//! The proleptic Gregorian calendar and its mapping to a linear count of days and
//! of nanoseconds since 1970-01-01T00:00:00Z.
use vstd::prelude::*;
use crate::date::Date;
use crate::time_of_day::Time;

verus! {

/// Days from 0000-01-01 to 1970-01-01.
pub const UNIX_EPOCH_DAY: u64 = 719528;

/// Days from 0000-01-01 to 10000-01-01, the first day past the representable range.
pub const DAYS_TO_YEAR_10000: u64 = 3652425;

pub const NANOS_PER_SEC: i128 = 1_000_000_000;

pub const NANOS_PER_DAY: i128 = 86_400_000_000_000;

/// Nanoseconds from 1970-01-01T00:00:00 back to 0000-01-01T00:00:00 (as a positive number).
pub const NANOS_BEFORE_EPOCH: i128 = 62_167_219_200_000_000_000;

/// Nanoseconds from 1970-01-01T00:00:00 to 10000-01-01T00:00:00.
pub const NANOS_TO_YEAR_10000: i128 = 253_402_300_800_000_000_000;

pub open spec fn is_leap_year(y: int) -> bool {
    y % 4 == 0 && (y % 100 != 0 || y % 400 == 0)
}

pub open spec fn days_in_year(y: int) -> int {
    if is_leap_year(y) {
        366
    } else {
        365
    }
}

pub open spec fn days_in_month(y: int, m: int) -> int {
    if m == 2 {
        if is_leap_year(y) {
            29
        } else {
            28
        }
    } else if m == 4 || m == 6 || m == 9 || m == 11 {
        30
    } else {
        31
    }
}

/// Days from 0000-01-01 to the first of January of year `y`.
pub open spec fn days_before_year(y: nat) -> int
    decreases y,
{
    if y == 0 {
        0
    } else {
        days_before_year((y - 1) as nat) + days_in_year(y - 1)
    }
}

/// Days from the first of January of year `y` to the first day of month `m`.
pub open spec fn days_before_month(y: int, m: nat) -> int
    decreases m,
{
    if m <= 1 {
        0
    } else {
        days_before_month(y, (m - 1) as nat) + days_in_month(y, m - 1)
    }
}

pub open spec fn valid_date(y: int, m: int, d: int) -> bool {
    0 <= y <= 9999 && 1 <= m <= 12 && 1 <= d <= days_in_month(y, m)
}

pub open spec fn valid_time(h: int, mi: int, s: int, ns: int) -> bool {
    0 <= h <= 23 && 0 <= mi <= 59 && 0 <= s <= 59 && 0 <= ns <= 999_999_999
}

/// Days from 0000-01-01 to the given date.
pub open spec fn day_number(y: int, m: int, d: int) -> int {
    days_before_year(y as nat) + days_before_month(y, m as nat) + d - 1
}

/// Days from 1970-01-01 to the given date, negative before it.
pub open spec fn days_from_civil(y: int, m: int, d: int) -> int {
    day_number(y, m, d) - UNIX_EPOCH_DAY
}

/// Nanoseconds from 1970-01-01T00:00:00 to the given wall-clock reading, read as UTC.
pub open spec fn civil_nanos(y: int, m: int, d: int, h: int, mi: int, s: int, ns: int) -> int {
    (days_from_civil(y, m, d) * 86400 + h * 3600 + mi * 60 + s) * 1_000_000_000 + ns
}

/// Whether a count of nanoseconds since the epoch, read as a wall-clock reading, falls
/// in the years 0 to 9999.
pub open spec fn in_civil_range(n: int) -> bool {
    -NANOS_BEFORE_EPOCH <= n < NANOS_TO_YEAR_10000
}

/// Weekday of a day count since 1970-01-01 (a Thursday): 0 is Sunday, 6 is Saturday.
pub open spec fn weekday_of_day(days: int) -> int {
    (days + 4) % 7
}

proof fn lemma_days_before_year_closed(y: nat)
    ensures
        days_before_year(y) == 365 * y + (y + 3) / 4 - (y + 99) / 100 + (y + 399) / 400,
    decreases y,
{
    if y > 0 {
        let p = (y - 1) as nat;
        lemma_days_before_year_closed(p);
        assert((p + 4) / 4 - (p + 3) / 4 == if p % 4 == 0 { 1int } else { 0int });
        assert((p + 100) / 100 - (p + 99) / 100 == if p % 100 == 0 { 1int } else { 0int });
        assert((p + 400) / 400 - (p + 399) / 400 == if p % 400 == 0 { 1int } else { 0int });
    }
}

proof fn lemma_days_before_year_mono(a: nat, b: nat)
    requires
        a <= b,
    ensures
        days_before_year(a) + 365 * (b - a) <= days_before_year(b),
    decreases b - a,
{
    if a < b {
        lemma_days_before_year_mono(a, (b - 1) as nat);
    }
}

proof fn lemma_days_before_month_table(y: int, m: nat)
    requires
        1 <= m <= 13,
    ensures
        days_before_month(y, m) == cumulative_days(m as int) + if m > 2 && is_leap_year(y) {
            1int
        } else {
            0int
        },
{
    reveal_with_fuel(days_before_month, 13);
}

/// Days before month `m` in a common year.
pub open spec fn cumulative_days(m: int) -> int {
    if m <= 1 {
        0
    } else if m == 2 {
        31
    } else if m == 3 {
        59
    } else if m == 4 {
        90
    } else if m == 5 {
        120
    } else if m == 6 {
        151
    } else if m == 7 {
        181
    } else if m == 8 {
        212
    } else if m == 9 {
        243
    } else if m == 10 {
        273
    } else if m == 11 {
        304
    } else if m == 12 {
        334
    } else {
        365
    }
}

proof fn lemma_days_in_year_is_month_sum(y: int)
    ensures
        days_before_month(y, 12) + 31 == days_in_year(y),
{
    lemma_days_before_month_table(y, 12);
}

/// Whether year `y` of the proleptic Gregorian calendar is a leap year.
pub fn leap_year(y: i32) -> (r: bool)
    ensures
        r == is_leap_year(y as int),
{
    y % 4 == 0 && (y % 100 != 0 || y % 400 == 0)
}

/// Number of days of month `m` (1 to 12) in year `y`.
pub fn month_days(y: i32, m: u8) -> (r: u8)
    requires
        1 <= m <= 12,
    ensures
        r as int == days_in_month(y as int, m as int),
{
    if m == 2 {
        if leap_year(y) {
            29
        } else {
            28
        }
    } else if m == 4 || m == 6 || m == 9 || m == 11 {
        30
    } else {
        31
    }
}

fn days_before_year_exec(y: u64) -> (r: u64)
    requires
        y <= 10000,
    ensures
        r as int == days_before_year(y as nat),
        r <= DAYS_TO_YEAR_10000,
{
    proof {
        lemma_days_before_year_closed(y as nat);
        lemma_days_before_year_closed(10000);
        lemma_days_before_year_mono(y as nat, 10000);
    }
    365 * y + (y + 3) / 4 - (y + 99) / 100 + (y + 399) / 400
}

fn days_before_month_exec(leap: bool, m: u64) -> (r: u64)
    requires
        1 <= m <= 12,
    ensures
        forall|y: int| is_leap_year(y) == leap ==> r as int == days_before_month(y, m as nat),
        r <= 335,
{
    proof {
        assert forall|y: int| is_leap_year(y) == leap implies days_before_month(y, m as nat)
            == cumulative_days(m as int) + if m > 2 && leap { 1int } else { 0int } by {
            lemma_days_before_month_table(y, m as nat);
        }
    }
    let base: u64 = if m == 1 {
        0
    } else if m == 2 {
        31
    } else if m == 3 {
        59
    } else if m == 4 {
        90
    } else if m == 5 {
        120
    } else if m == 6 {
        151
    } else if m == 7 {
        181
    } else if m == 8 {
        212
    } else if m == 9 {
        243
    } else if m == 10 {
        273
    } else if m == 11 {
        304
    } else {
        334
    };
    if m > 2 && leap {
        base + 1
    } else {
        base
    }
}

/// Days from 0000-01-01 to a valid date.
pub fn day_number_of(y: i32, m: u8, d: u8) -> (r: u64)
    requires
        valid_date(y as int, m as int, d as int),
    ensures
        r as int == day_number(y as int, m as int, d as int),
        r < DAYS_TO_YEAR_10000,
{
    let yy = y as u64;
    let a = days_before_year_exec(yy);
    let b = days_before_month_exec(leap_year(y), m as u64);
    proof {
        lemma_days_before_year_closed((yy + 1) as nat);
        lemma_days_before_year_mono((yy + 1) as nat, 10000);
        lemma_days_before_year_closed(10000);
        lemma_days_before_month_table(y as int, m as nat);
        lemma_days_before_month_table(y as int, 12);
        assert(b + d - 1 < days_in_year(y as int)) by {
            lemma_days_before_month_table(y as int, (m + 1) as nat);
        }
    }
    a + b + d as u64 - 1
}

/// The date whose day number (days since 0000-01-01) is `n`.
pub fn date_of_day_number(n: u64) -> (r: (i32, u8, u8))
    requires
        n < DAYS_TO_YEAR_10000,
    ensures
        valid_date(r.0 as int, r.1 as int, r.2 as int),
        day_number(r.0 as int, r.1 as int, r.2 as int) == n,
{
    proof {
        lemma_days_before_year_closed(10000);
    }
    // Estimate from the length of a 400-year cycle, then correct.
    let mut y: u64 = n * 400 / 146097;
    assert(y <= 9999) by (nonlinear_arith)
        requires
            y == n * 400 / 146097,
            n < 3652425,
    ;
    while days_before_year_exec(y) > n
        invariant
            y <= 9999,
            n < DAYS_TO_YEAR_10000,
        decreases y,
    {
        y = y - 1;
    }
    while days_before_year_exec(y + 1) <= n
        invariant
            y <= 9999,
            days_before_year(y as nat) <= n,
            n < DAYS_TO_YEAR_10000,
            days_before_year(10000) == DAYS_TO_YEAR_10000,
        decreases 10000 - y,
    {
        proof {
            if y + 1 >= 10000 {
                lemma_days_before_year_mono(10000, (y + 1) as nat);
            }
        }
        y = y + 1;
        proof {
            if y == 10000 {
                assert(false);
            }
        }
    }
    let year = y as i32;
    let leap = leap_year(year);
    let doy = n - days_before_year_exec(y);
    assert(doy < days_in_year(year as int));
    let mut m: u64 = 1;
    while m < 12 && days_before_month_exec(leap, m + 1) <= doy
        invariant
            1 <= m <= 12,
            leap == is_leap_year(year as int),
            days_before_month(year as int, m as nat) <= doy,
            doy < days_in_year(year as int),
        decreases 12 - m,
    {
        m = m + 1;
    }
    let dbm = days_before_month_exec(leap, m);
    proof {
        lemma_days_in_year_is_month_sum(year as int);
        if m < 12 {
            assert(days_before_month(year as int, (m + 1) as nat) == dbm + days_in_month(year as int, m as int));
        }
    }
    let d = doy - dbm + 1;
    (year, m as u8, d as u8)
}

/// Weekday of the day that holds the instant `n` (nanoseconds since the epoch), in UTC:
/// 0 is Sunday, 1 Monday, ..., 6 Saturday.
pub fn weekday_of_instant(n: i128) -> (r: u8)
    requires
        -NANOS_BEFORE_EPOCH - NANOS_PER_DAY <= n < NANOS_TO_YEAR_10000 + NANOS_PER_DAY,
    ensures
        r as int == weekday_of_day(n as int / NANOS_PER_DAY as int),
        r <= 6,
{
    // Counted from 0000-01-01 less one week, a Saturday.
    let shifted = (n + NANOS_BEFORE_EPOCH + 7 * NANOS_PER_DAY) as u128;
    let days = shifted / 86_400_000_000_000u128;
    proof {
        assert(days as int == n as int / NANOS_PER_DAY as int + UNIX_EPOCH_DAY + 7) by {
            let k = n as int / NANOS_PER_DAY as int;
            assert(n as int == k * NANOS_PER_DAY + n as int % NANOS_PER_DAY as int);
            assert(shifted as int == (k + UNIX_EPOCH_DAY + 7) * NANOS_PER_DAY + n as int
                % NANOS_PER_DAY as int);
        }
    }
    ((days + 6) % 7) as u8
}

/// Nanoseconds from 1970-01-01T00:00:00 to the wall-clock reading `(d, t)`, read as UTC.
pub open spec fn civil_nanos_of(d: Date, t: Time) -> int {
    civil_nanos(
        d.year as int,
        d.mon as int,
        d.day as int,
        t.hour as int,
        t.minute as int,
        t.sec as int,
        t.nano as int,
    )
}

/// The absolute instant (nanoseconds since 1970-01-01T00:00:00Z) that the wall-clock
/// reading `(d, t)` denotes at a UTC offset of `offset` seconds.
pub open spec fn instant_of(d: Date, t: Time, offset: int) -> int {
    civil_nanos_of(d, t) - offset * NANOS_PER_SEC
}

proof fn lemma_day_number_bounds(y: int, m: int, d: int)
    requires
        valid_date(y, m, d),
    ensures
        days_before_year(y as nat) + days_before_month(y, m as nat) <= day_number(y, m, d),
        day_number(y, m, d) < days_before_year(y as nat) + days_before_month(y, (m + 1) as nat),
        day_number(y, m, d) < days_before_year((y + 1) as nat),
        0 <= day_number(y, m, d) < DAYS_TO_YEAR_10000,
{
    lemma_days_before_month_table(y, m as nat);
    lemma_days_before_month_table(y, (m + 1) as nat);
    lemma_days_before_month_table(y, 13);
    lemma_days_before_year_closed(10000);
    lemma_days_before_year_mono((y + 1) as nat, 10000);
    lemma_days_before_year_mono(0, y as nat);
}

/// Two valid dates with the same day number are the same date.
pub proof fn lemma_day_number_injective(y1: int, m1: int, d1: int, y2: int, m2: int, d2: int)
    requires
        valid_date(y1, m1, d1),
        valid_date(y2, m2, d2),
        day_number(y1, m1, d1) == day_number(y2, m2, d2),
    ensures
        y1 == y2 && m1 == m2 && d1 == d2,
{
    lemma_day_number_bounds(y1, m1, d1);
    lemma_day_number_bounds(y2, m2, d2);
    if y1 < y2 {
        lemma_days_before_year_mono((y1 + 1) as nat, y2 as nat);
        lemma_days_before_month_table(y2, m2 as nat);
    } else if y2 < y1 {
        lemma_days_before_year_mono((y2 + 1) as nat, y1 as nat);
        lemma_days_before_month_table(y1, m1 as nat);
    } else {
        lemma_days_before_month_table(y1, m1 as nat);
        lemma_days_before_month_table(y1, (m1 + 1) as nat);
        lemma_days_before_month_table(y1, m2 as nat);
        lemma_days_before_month_table(y1, (m2 + 1) as nat);
    }
}

proof fn lemma_split_unique(q1: int, r1: int, q2: int, r2: int, k: int)
    requires
        k > 0,
        0 <= r1 < k,
        0 <= r2 < k,
        q1 * k + r1 == q2 * k + r2,
    ensures
        q1 == q2,
        r1 == r2,
{
    if q1 < q2 {
        assert(q1 * k + k <= q2 * k) by (nonlinear_arith)
            requires
                q1 < q2,
                k > 0,
        ;
    } else if q2 < q1 {
        assert(q2 * k + k <= q1 * k) by (nonlinear_arith)
            requires
                q2 < q1,
                k > 0,
        ;
    }
}

/// Two valid wall-clock readings that are the same count of nanoseconds are equal.
pub proof fn lemma_civil_nanos_injective(d1: Date, t1: Time, d2: Date, t2: Time)
    requires
        d1.wf(),
        t1.wf(),
        d2.wf(),
        t2.wf(),
        civil_nanos_of(d1, t1) == civil_nanos_of(d2, t2),
    ensures
        d1 == d2,
        t1 == t2,
{
    let n1 = day_number(d1.year as int, d1.mon as int, d1.day as int);
    let n2 = day_number(d2.year as int, d2.mon as int, d2.day as int);
    let s1 = t1.hour * 3600 + t1.minute * 60 + t1.sec;
    let s2 = t2.hour * 3600 + t2.minute * 60 + t2.sec;
    let r1 = s1 * 1000000000 + t1.nano;
    let r2 = s2 * 1000000000 + t2.nano;
    assert(n1 * 86400000000000 + r1 == n2 * 86400000000000 + r2);
    lemma_split_unique(n1, r1, n2, r2, 86400000000000);
    lemma_split_unique(s1, t1.nano as int, s2, t2.nano as int, 1000000000);
    lemma_split_unique(
        t1.hour as int,
        t1.minute * 60 + t1.sec,
        t2.hour as int,
        t2.minute * 60 + t2.sec,
        3600,
    );
    lemma_split_unique(t1.minute as int, t1.sec as int, t2.minute as int, t2.sec as int, 60);
    lemma_day_number_injective(
        d1.year as int,
        d1.mon as int,
        d1.day as int,
        d2.year as int,
        d2.mon as int,
        d2.day as int,
    );
}

/// Nanoseconds from the epoch to a valid wall-clock reading, read as UTC.
pub fn to_civil_nanos(d: &Date, t: &Time) -> (r: i128)
    requires
        d.wf(),
        t.wf(),
    ensures
        r as int == civil_nanos_of(*d, *t),
        in_civil_range(r as int),
{
    let n = day_number_of(d.year as i32, d.mon, d.day);
    let secs: i128 = (n as i128 - UNIX_EPOCH_DAY as i128) * 86400 + t.hour as i128 * 3600
        + t.minute as i128 * 60 + t.sec as i128;
    secs * NANOS_PER_SEC + t.nano as i128
}

/// The wall-clock reading (as UTC) that lies `n` nanoseconds after the epoch.
pub fn from_civil_nanos(n: i128) -> (r: (Date, Time))
    requires
        in_civil_range(n as int),
    ensures
        r.0.wf(),
        r.1.wf(),
        civil_nanos_of(r.0, r.1) == n,
{
    let shifted = (n + NANOS_BEFORE_EPOCH) as u128;
    let days = shifted / 86_400_000_000_000u128;
    let rem = shifted % 86_400_000_000_000u128;
    assert(shifted < 3652425 * 86400000000000);
    assert(days < 3652425) by {
        assert(shifted as int == days * 86400000000000 + rem);
    }
    let (y, m, d) = date_of_day_number(days as u64);
    let secs = rem / 1_000_000_000;
    let nano = (rem % 1_000_000_000) as u32;
    let hour = (secs / 3600) as u8;
    let minute = (secs % 3600 / 60) as u8;
    let sec = (secs % 60) as u8;
    assert(secs as int == hour * 3600 + minute * 60 + sec);
    (Date { day: d, mon: m, year: y as u16 }, Time { nano, sec, minute, hour })
}

/// Weekday of a valid wall-clock reading at the given offset, taken at its instant in UTC:
/// 0 is Sunday, 6 is Saturday.
pub open spec fn weekday_of(d: Date, t: Time, offset: int) -> int {
    weekday_of_day(instant_of(d, t, offset) / NANOS_PER_DAY as int)
}

} // verus!
