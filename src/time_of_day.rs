//! Times of day.
use vstd::prelude::*;
use crate::civil::valid_time;
use crate::duration::duration_nanos;
use core::time::Duration;
use crate::error::Error;
use crate::text::{
    ascii_text, digit_at, digit_byte, digit_run, digits_at, digits_bytes, digits_value, dval,
    lemma_digits_value_bound, lemma_pow10_mono, lemma_pow10_values, pow10, push_ascii, two_digit_bytes,
};
use vstd::string::StringSliceAdditionalSpecFns;

verus! {

/// A time of day with nanosecond precision.
#[derive(Clone, Copy, Debug, PartialEq, Eq, Structural, Hash)]
pub struct Time {
    /// 0...999999999
    pub nano: u32,
    /// 0...59
    pub sec: u8,
    /// 0...59
    pub minute: u8,
    /// 0...23
    pub hour: u8,
}

pub open spec fn midnight() -> Time {
    Time { nano: 0, sec: 0, minute: 0, hour: 0 }
}

/// What parsing a time of day from `b` at position `start` gives: the time and the
/// number of bytes it took. The form is `hh?mm?ss`, then optionally `.` or `,` and
/// one to nine digits of fraction; the separators are not checked.
pub open spec fn parse_time_spec(b: Seq<u8>, start: int) -> Result<(Time, int), Seq<char>> {
    if b.len() < start {
        Ok((midnight(), 0))
    } else if b.len() - start < 5 {
        Err("TooShort"@)
    } else if !digits_at(b, start, 2) {
        Err("InvalidCharHour"@)
    } else if !digits_at(b, start + 3, 2) {
        Err("InvalidCharMinute"@)
    } else {
        let h = 10 * dval(b[start]) + dval(b[start + 1]);
        let mi = 10 * dval(b[start + 3]) + dval(b[start + 4]);
        if h > 23 {
            Err("OutOfRangeHour"@)
        } else if mi > 59 {
            Err("OutOfRangeMinute"@)
        } else if !digits_at(b, start + 6, 2) {
            Err("InvalidCharSecond"@)
        } else {
            let s = 10 * dval(b[start + 6]) + dval(b[start + 7]);
            if s > 59 {
                Err("OutOfRangeSecond"@)
            } else if start + 8 < b.len() && (b[start + 8] == 46u8 || b[start + 8] == 44u8) {
                let k = digit_run(b, start + 9, 10);
                if k == 0 {
                    Err("SecondFractionMissing"@)
                } else if k > 9 {
                    Err("SecondFractionTooLong"@)
                } else {
                    Ok(
                        (
                            Time {
                                nano: (digits_value(b, start + 9, k) * pow10((9 - k) as nat)) as u32,
                                sec: s as u8,
                                minute: mi as u8,
                                hour: h as u8,
                            },
                            9 + k as int,
                        ),
                    )
                }
            } else {
                Ok((Time { nano: 0, sec: s as u8, minute: mi as u8, hour: h as u8 }, 8))
            }
        }
    }
}

/// Number of trailing zero digits of `n`, counting at most `cap`.
pub open spec fn trailing_zeros(n: int, cap: nat) -> nat
    decreases cap,
{
    if cap == 0 || n % 10 != 0 {
        0
    } else {
        1 + trailing_zeros(n / 10, (cap - 1) as nat)
    }
}

/// Length of the fraction that `Time`'s text shows: none for a whole second, otherwise
/// a dot and the nine digits without their trailing zeros.
pub open spec fn time_frac_len(nano: int) -> int {
    if nano == 0 {
        0
    } else {
        10 - trailing_zeros(nano, 8)
    }
}

/// `hh:mm:ss.fffffffff` in full.
pub open spec fn time_full_bytes(t: Time) -> Seq<u8> {
    two_digit_bytes(t.hour as int) + seq![58u8] + two_digit_bytes(t.minute as int) + seq![58u8]
        + two_digit_bytes(t.sec as int) + seq![46u8] + digits_bytes(t.nano as int, 9)
}

/// The text of a time: `hh:mm:ss`, then the fraction without trailing zeros.
pub open spec fn time_bytes(t: Time) -> Seq<u8> {
    time_full_bytes(t).subrange(0, 8 + time_frac_len(t.nano as int))
}

pub proof fn lemma_trailing_zeros_le(n: int, cap: nat)
    ensures
        trailing_zeros(n, cap) <= cap,
    decreases cap,
{
    if cap > 0 {
        lemma_trailing_zeros_le(n / 10, (cap - 1) as nat);
    }
}

pub proof fn lemma_time_full_bytes_len(t: Time)
    ensures
        time_full_bytes(t).len() == 18,
{
    lemma_digits_bytes_len(t.nano as int, 9);
}

pub proof fn lemma_digits_bytes_len(v: int, k: nat)
    ensures
        digits_bytes(v, k).len() == k,
    decreases k,
{
    if k > 0 {
        lemma_digits_bytes_len(v / 10, (k - 1) as nat);
    }
}

pub proof fn lemma_nine_digits(v: int)
    requires
        0 <= v,
    ensures
        digits_bytes(v, 9) == seq![
            digit_byte(v / 100000000 % 10),
            digit_byte(v / 10000000 % 10),
            digit_byte(v / 1000000 % 10),
            digit_byte(v / 100000 % 10),
            digit_byte(v / 10000 % 10),
            digit_byte(v / 1000 % 10),
            digit_byte(v / 100 % 10),
            digit_byte(v / 10 % 10),
            digit_byte(v % 10),
        ],
{
    reveal_with_fuel(digits_bytes, 10);
    assert(v / 10 / 10 == v / 100);
    assert(v / 100 / 10 == v / 1000);
    assert(v / 1000 / 10 == v / 10000);
    assert(v / 10000 / 10 == v / 100000);
    assert(v / 100000 / 10 == v / 1000000);
    assert(v / 1000000 / 10 == v / 10000000);
    assert(v / 10000000 / 10 == v / 100000000);
    assert(digits_bytes(v, 9) =~= seq![
        digit_byte(v / 100000000 % 10),
        digit_byte(v / 10000000 % 10),
        digit_byte(v / 1000000 % 10),
        digit_byte(v / 100000 % 10),
        digit_byte(v / 10000 % 10),
        digit_byte(v / 1000 % 10),
        digit_byte(v / 100 % 10),
        digit_byte(v / 10 % 10),
        digit_byte(v % 10),
    ]);
}

/// Number of trailing zeros of `nano`, counting at most eight.
fn trailing_zero_count(nano: u32) -> (r: usize)
    ensures
        r as int == trailing_zeros(nano as int, 8),
        r <= 8,
{
    let mut n = nano;
    let mut tz: usize = 0;
    while tz < 8 && n % 10 == 0
        invariant
            tz <= 8,
            trailing_zeros(nano as int, 8) == tz + trailing_zeros(n as int, (8 - tz) as nat),
        decreases 8 - tz,
    {
        n = n / 10;
        tz = tz + 1;
    }
    tz
}

impl Time {
    /// Whether each field lies in its range.
    pub open spec fn wf(&self) -> bool {
        valid_time(self.hour as int, self.minute as int, self.sec as int, self.nano as int)
    }

    /// Whether each field lies in its range.
    pub fn is_valid(&self) -> (r: bool)
        ensures
            r == self.wf(),
    {
        self.hour <= 23 && self.minute <= 59 && self.sec <= 59 && self.nano <= 999_999_999
    }

    /// Parses a time of day from `bytes` at `offset` and returns it with the number of
    /// bytes it took; what follows is not read.
    #[verifier::loop_isolation(false)]
    pub fn parse_bytes_partial(bytes: &[u8], offset: usize) -> (r: Result<(Time, usize), Error>)
        ensures
            match (r, parse_time_spec(bytes@, offset as int)) {
                (Ok(a), Ok(b)) => a.0 == b.0 && a.1 as int == b.1 && a.0.wf(),
                (Err(e), Err(m)) => e.message() == m,
                _ => false,
            },
    {
        if bytes.len() < offset {
            return Ok((Time { nano: 0, sec: 0, minute: 0, hour: 0 }, 0));
        }
        if bytes.len() - offset < 5 {
            return Err(Error::msg("TooShort"));
        }
        let h1 = digit_at(bytes, offset);
        let h2 = digit_at(bytes, offset + 1);
        if h1.is_none() || h2.is_none() {
            return Err(Error::msg("InvalidCharHour"));
        }
        let m1 = digit_at(bytes, offset + 3);
        let m2 = digit_at(bytes, offset + 4);
        if m1.is_none() || m2.is_none() {
            return Err(Error::msg("InvalidCharMinute"));
        }
        let hour: u8 = 10 * h1.unwrap() + h2.unwrap();
        let minute: u8 = 10 * m1.unwrap() + m2.unwrap();
        if hour > 23 {
            return Err(Error::msg("OutOfRangeHour"));
        }
        if minute > 59 {
            return Err(Error::msg("OutOfRangeMinute"));
        }
        if bytes.len() - offset < 8 {
            return Err(Error::msg("InvalidCharSecond"));
        }
        let s1 = digit_at(bytes, offset + 6);
        let s2 = digit_at(bytes, offset + 7);
        if s1.is_none() || s2.is_none() {
            return Err(Error::msg("InvalidCharSecond"));
        }
        let sec: u8 = 10 * s1.unwrap() + s2.unwrap();
        if sec > 59 {
            return Err(Error::msg("OutOfRangeSecond"));
        }
        if offset + 8 < bytes.len() && (bytes[offset + 8] == 46 || bytes[offset + 8] == 44) {
            let p = offset + 9;
            let ghost b = bytes@;
            let mut cnt: usize = 0;
            let mut val: u32 = 0;
            while p + cnt < bytes.len() && 48 <= bytes[p + cnt] && bytes[p + cnt] <= 57
                invariant
                    b == bytes@,
                    p == offset + 9,
                    p + cnt <= bytes@.len(),
                    cnt <= 9,
                    digits_at(b, p as int, cnt as int),
                    val as int == digits_value(b, p as int, cnt as nat),
                    digit_run(b, p as int, 10) == cnt + digit_run(b, p + cnt, (10 - cnt) as nat),
                decreases bytes@.len() - p - cnt,
            {
                proof {
                    assert(digit_run(b, p + cnt, (10 - cnt) as nat) == 1 + digit_run(
                        b,
                        p + cnt + 1,
                        (10 - cnt - 1) as nat,
                    ));
                }
                if cnt == 9 {
                    proof {
                        assert(digit_run(b, p + cnt + 1, 0) == 0);
                    }
                    return Err(Error::msg("SecondFractionTooLong"));
                }
                proof {
                    lemma_digits_value_bound(b, p as int, cnt as nat);
                    lemma_pow10_mono(cnt as nat, 8);
                    lemma_pow10_values();
                }
                val = val * 10 + (bytes[p + cnt] - 48) as u32;
                cnt = cnt + 1;
                proof {
                    assert(digits_at(b, p as int, cnt as int));
                }
            }
            proof {
                assert(digit_run(b, p + cnt, (10 - cnt) as nat) == 0);
            }
            if cnt == 0 {
                return Err(Error::msg("SecondFractionMissing"));
            }
            let ghost v0 = val as int;
            proof {
                lemma_digits_value_bound(b, p as int, cnt as nat);
            }
            let mut j: usize = cnt;
            while j < 9
                invariant
                    cnt <= j <= 9,
                    val as int == v0 * pow10((j - cnt) as nat),
                    0 <= v0 < pow10(cnt as nat),
                    val < pow10(j as nat),
                decreases 9 - j,
            {
                proof {
                    lemma_pow10_values();
                    lemma_pow10_mono(j as nat, 8);
                    assert(pow10((j + 1 - cnt) as nat) == 10 * pow10((j - cnt) as nat));
                    assert(pow10((j + 1) as nat) == 10 * pow10(j as nat));
                    assert(v0 * (10 * pow10((j - cnt) as nat)) == 10 * (v0 * pow10((j - cnt) as nat)))
                        by (nonlinear_arith);
                }
                val = val * 10;
                j = j + 1;
            }
            proof {
                lemma_pow10_values();
            }
            Ok((Time { nano: val, sec, minute, hour }, 9 + cnt))
        } else {
            Ok((Time { nano: 0, sec, minute, hour }, 8))
        }
    }

    /// Writes the digits of `hh:mm:ss.fffffffff` into `buf` from `start`, leaving the two
    /// colon positions as they are, and returns the end of the text that should be shown:
    /// `hh:mm:ss`, then the fraction without its trailing zeros, or no fraction at all.
    #[verifier::rlimit(50)]
    pub fn display_time(&self, start: usize, buf: &mut [u8]) -> (r: usize)
        requires
            self.wf(),
            start + 18 <= old(buf)@.len(),
        ensures
            r == start + 8 + time_frac_len(self.nano as int),
            final(buf)@.len() == old(buf)@.len(),
            forall|i: int|
                #![trigger final(buf)@[i]]
                0 <= i < old(buf)@.len() ==> final(buf)@[i] == if start <= i < start + 18 && i
                    != start + 2 && i != start + 5 {
                    time_full_bytes(*self)[i - start]
                } else {
                    old(buf)@[i]
                },
    {
        let n = self.nano;
        buf[start] = 48 + self.hour / 10;
        buf[start + 1] = 48 + self.hour % 10;
        buf[start + 3] = 48 + self.minute / 10;
        buf[start + 4] = 48 + self.minute % 10;
        buf[start + 6] = 48 + self.sec / 10;
        buf[start + 7] = 48 + self.sec % 10;
        buf[start + 8] = 46;
        buf[start + 9] = 48 + (n / 100000000 % 10) as u8;
        buf[start + 10] = 48 + (n / 10000000 % 10) as u8;
        buf[start + 11] = 48 + (n / 1000000 % 10) as u8;
        buf[start + 12] = 48 + (n / 100000 % 10) as u8;
        buf[start + 13] = 48 + (n / 10000 % 10) as u8;
        buf[start + 14] = 48 + (n / 1000 % 10) as u8;
        buf[start + 15] = 48 + (n / 100 % 10) as u8;
        buf[start + 16] = 48 + (n / 10 % 10) as u8;
        buf[start + 17] = 48 + (n % 10) as u8;
        proof {
            lemma_nine_digits(n as int);
            lemma_time_full_bytes_len(*self);
        }
        if n == 0 {
            start + 8
        } else {
            start + 18 - trailing_zero_count(n)
        }
    }

    /// The bytes of `hh:mm:ss`, then the fraction without its trailing zeros.
    pub fn to_bytes(&self) -> (r: Vec<u8>)
        requires
            self.wf(),
        ensures
            r@ == time_bytes(*self),
    {
        let mut buf: Vec<u8> = vec![48u8, 48, 58, 48, 48, 58, 48, 48, 46, 48, 48, 48, 48, 48, 48, 48, 48, 48];
        let len = self.display_time(0, buf.as_mut_slice());
        proof {
            lemma_time_full_bytes_len(*self);
            assert(buf@ =~= time_full_bytes(*self));
        }
        buf.truncate(len);
        assert(buf@ =~= time_bytes(*self));
        buf
    }

    /// `hh:mm:ss[.fffffffff]`, as `Display` would write it.
    pub fn to_string(&self) -> (r: String)
        requires
            self.wf(),
        ensures
            r@ == ascii_text(time_bytes(*self)),
    {
        let b = self.to_bytes();
        let mut s = String::new();
        push_ascii(&mut s, b.as_slice());
        s
    }

    /// Sets the nanoseconds, when below one second; otherwise the time is unchanged.
    pub fn set_nano(self, arg: u32) -> (r: Time)
        ensures
            r == (if arg <= 999_999_999 { Time { nano: arg, ..self } } else { self }),
    {
        if arg <= 999_999_999 {
            Time { nano: arg, ..self }
        } else {
            self
        }
    }

    /// Sets the fraction of the second in microseconds, when below one second; otherwise
    /// the time is unchanged.
    pub fn set_micro(self, arg: u32) -> (r: Time)
        ensures
            r == (if arg <= 999_999 { Time { nano: (arg * 1000) as u32, ..self } } else { self }),
    {
        if arg <= 999_999 {
            Time { nano: arg * 1000, ..self }
        } else {
            self
        }
    }

    /// Sets the second, when it is 0 to 59; otherwise the time is unchanged.
    pub fn set_sec(self, arg: u8) -> (r: Time)
        ensures
            r == (if arg <= 59 { Time { sec: arg, ..self } } else { self }),
    {
        if arg <= 59 {
            Time { sec: arg, ..self }
        } else {
            self
        }
    }

    /// Sets the minute, when it is 0 to 59; otherwise the time is unchanged.
    pub fn set_min(self, arg: u8) -> (r: Time)
        ensures
            r == (if arg <= 59 { Time { minute: arg, ..self } } else { self }),
    {
        if arg <= 59 {
            Time { minute: arg, ..self }
        } else {
            self
        }
    }

    /// The same as `set_min`.
    pub fn set_minute(self, arg: u8) -> (r: Time)
        ensures
            r == self.set_min_spec(arg),
    {
        self.set_min(arg)
    }

    pub open spec fn set_min_spec(self, arg: u8) -> Time {
        if arg <= 59 {
            Time { minute: arg, ..self }
        } else {
            self
        }
    }

    /// Sets the hour, when it is 0 to 23; otherwise the time is unchanged.
    pub fn set_hour(self, arg: u8) -> (r: Time)
        ensures
            r == (if arg <= 23 { Time { hour: arg, ..self } } else { self }),
    {
        if arg <= 23 {
            Time { hour: arg, ..self }
        } else {
            self
        }
    }

    pub fn get_nano(&self) -> (r: u32)
        ensures
            r == self.nano,
    {
        self.nano
    }

    /// The fraction of the second in whole microseconds.
    pub fn get_micro(&self) -> (r: u32)
        ensures
            r == self.nano / 1000,
    {
        self.nano / 1000
    }

    pub fn get_sec(&self) -> (r: u8)
        ensures
            r == self.sec,
    {
        self.sec
    }

    pub fn get_min(&self) -> (r: u8)
        ensures
            r == self.minute,
    {
        self.minute
    }

    /// The same as `get_min`.
    pub fn get_minute(&self) -> (r: u8)
        ensures
            r == self.minute,
    {
        self.minute
    }

    pub fn get_hour(&self) -> (r: u8)
        ensures
            r == self.hour,
    {
        self.hour
    }

    /// Parses `hh:mm:ss[.fffffffff]`; text after the time is not read.
    pub fn from_str(s: &str) -> (r: Result<Time, Error>)
        ensures
            match (r, parse_time_spec(s.spec_bytes(), 0)) {
                (Ok(a), Ok(b)) => a == b.0 && a.wf(),
                (Err(e), Err(m)) => e.message() == m,
                _ => false,
            },
    {
        match Time::parse_bytes_partial(s.as_bytes(), 0) {
            Ok((t, _)) => Ok(t),
            Err(e) => Err(e),
        }
    }
}

/// The time of day that lies `n` nanoseconds (0 or more) after a midnight.
pub open spec fn time_of_nanos(n: int) -> Time {
    let d = n % 86_400_000_000_000;
    let secs = d / 1_000_000_000;
    Time {
        nano: (d % 1_000_000_000) as u32,
        sec: (secs % 60) as u8,
        minute: (secs % 3600 / 60) as u8,
        hour: (secs / 3600) as u8,
    }
}

impl From<Duration> for Time {
    /// The time of day a duration after midnight; whole days are dropped.
    fn from(d: Duration) -> (r: Time) {
        let n = d.as_nanos() % 86_400_000_000_000;
        let secs = (n / 1_000_000_000) as u32;
        Time {
            nano: (n % 1_000_000_000) as u32,
            sec: (secs % 60) as u8,
            minute: (secs % 3600 / 60) as u8,
            hour: (secs / 3600) as u8,
        }
    }
}

impl vstd::std_specs::convert::FromSpecImpl<Duration> for Time {
    open spec fn obeys_from_spec() -> bool {
        true
    }

    open spec fn from_spec(d: Duration) -> Time {
        time_of_nanos(duration_nanos(d))
    }
}

impl From<Time> for Duration {
    /// The time since midnight.
    fn from(t: Time) -> (r: Duration)
        ensures
            duration_nanos(r) == (t.hour * 3600 + t.minute * 60 + t.sec) * 1_000_000_000 + t.nano,
    {
        let secs: u64 = t.hour as u64 * 3600 + t.minute as u64 * 60 + t.sec as u64;
        Duration::new(secs, t.nano)
    }
}

impl vstd::std_specs::convert::FromSpecImpl<Time> for Duration {
    open spec fn obeys_from_spec() -> bool {
        false
    }

    open spec fn from_spec(t: Time) -> Duration {
        vstd::pervasive::arbitrary()
    }
}

impl core::str::FromStr for Time {
    type Err = Error;

    fn from_str(s: &str) -> Result<Time, Error> {
        Time::from_str(s)
    }
}

} // verus!
