//! The text form of a `DateTime`: `YYYY-MM-DDThh:mm:ss[.fraction](Z|±hh:mm[:ss])`.
use vstd::prelude::*;
use vstd::string::StringSliceAdditionalSpecFns;

use crate::date::{Date, parse_date_spec};
use crate::datetime::{DateTime, MAX_OFFSET, clamp_offset, limit_offset};
use crate::error::Error;
use crate::text::{ascii_text, digit_at, digits_at, digits_bytes, dval, push_ascii, push_digits, push_two, two_digit_bytes};
use crate::date::date_bytes;
use crate::time_of_day::{Time, midnight, parse_time_spec};

verus! {

/// Value of the two digits of `b` at position `i`.
pub open spec fn two_digits_at(b: Seq<u8>, i: int) -> int {
    10 * dval(b[i]) + dval(b[i + 1])
}

/// The offset `±hh:mm:ss` in seconds, or the error for a field out of range.
pub open spec fn offset_value(sign: u8, hh: int, mm: int, ss: int) -> Result<Option<int>, Seq<char>> {
    if hh > 23 || mm > 59 || ss > 59 {
        Err("OutOfRangeOffset"@)
    } else if sign == 45u8 {
        Ok(Some(-(hh * 3600 + mm * 60 + ss)))
    } else {
        Ok(Some(hh * 3600 + mm * 60 + ss))
    }
}

/// What reading an offset from `b` at position `p` to its end gives: none at the end of
/// the text, `Z` for UTC, or `±hh`, `±hh:mm` or `±hh:mm:ss`, the separators unchecked.
pub open spec fn parse_offset_spec(b: Seq<u8>, p: int) -> Result<Option<int>, Seq<char>> {
    if p >= b.len() {
        Ok(None)
    } else if b[p] == 90u8 {
        if p + 1 == b.len() {
            Ok(Some(0))
        } else {
            Err("InvalidCharOffset"@)
        }
    } else if b[p] == 43u8 || b[p] == 45u8 {
        if !digits_at(b, p + 1, 2) {
            Err("InvalidCharOffset"@)
        } else if p + 3 == b.len() {
            offset_value(b[p], two_digits_at(b, p + 1), 0, 0)
        } else if !digits_at(b, p + 4, 2) {
            Err("InvalidCharOffset"@)
        } else if p + 6 == b.len() {
            offset_value(b[p], two_digits_at(b, p + 1), two_digits_at(b, p + 4), 0)
        } else if !(digits_at(b, p + 7, 2) && p + 9 == b.len()) {
            Err("InvalidCharOffset"@)
        } else {
            offset_value(
                b[p],
                two_digits_at(b, p + 1),
                two_digits_at(b, p + 4),
                two_digits_at(b, p + 7),
            )
        }
    } else {
        Err("InvalidCharOffset"@)
    }
}

/// What parsing `b` as a `DateTime` gives, as date, time and offset. A date alone is
/// midnight; the separator after the date is not checked; one space may stand before the
/// offset; text without an offset takes `default_offset`.
pub open spec fn parse_datetime_spec(b: Seq<u8>, default_offset: int) -> Result<
    (Date, Time, int),
    Seq<char>,
> {
    match parse_date_spec(b) {
        Err(e) => Err(e),
        Ok(date) => if b.len() == 10 {
            Ok((date, midnight(), clamp_offset(default_offset)))
        } else {
            match parse_time_spec(b, 11) {
                Err(e) => Err(e),
                Ok((time, n)) => {
                    let p0 = 11 + n;
                    let p = if p0 < b.len() && b[p0] == 32u8 {
                        p0 + 1
                    } else {
                        p0
                    };
                    match parse_offset_spec(b, p) {
                        Err(e) => Err(e),
                        Ok(None) => Ok((date, time, clamp_offset(default_offset))),
                        Ok(Some(o)) => Ok((date, time, o)),
                    }
                },
            }
        },
    }
}

proof fn lemma_datetime_bytes_len(v: (Date, Time, int), sep: u8, zone: bool)
    ensures
        datetime_bytes(v, sep, zone).len() <= 38,
{
    crate::time_of_day::lemma_digits_bytes_len(v.1.nano as int, 9);
    crate::time_of_day::lemma_digits_bytes_len(v.1.nano as int / 1000, 6);
    crate::time_of_day::lemma_digits_bytes_len(v.1.nano as int / 1_000_000, 3);
}

/// Whether an exec parse result agrees with the spec result.
pub open spec fn parsed_as(r: Result<DateTime, Error>, s: Result<(Date, Time, int), Seq<char>>) -> bool {
    match (r, s) {
        (Ok(v), Ok(w)) => v@ == w,
        (Err(e), Err(m)) => e.message() == m,
        _ => false,
    }
}

fn parse_offset(b: &[u8], p: usize) -> (r: Result<Option<i32>, Error>)
    ensures
        match (r, parse_offset_spec(b@, p as int)) {
            (Ok(Some(a)), Ok(Some(c))) => a == c && -MAX_OFFSET <= a <= MAX_OFFSET,
            (Ok(None), Ok(None)) => true,
            (Err(e), Err(m)) => e.message() == m,
            _ => false,
        },
{
    if p >= b.len() {
        return Ok(None);
    }
    let c = b[p];
    if c == 90 {
        if p + 1 == b.len() {
            return Ok(Some(0));
        } else {
            return Err(Error::msg("InvalidCharOffset"));
        }
    }
    if c != 43 && c != 45 {
        return Err(Error::msg("InvalidCharOffset"));
    }
    if b.len() - p < 3 {
        return Err(Error::msg("InvalidCharOffset"));
    }
    let h1 = digit_at(b, p + 1);
    let h2 = digit_at(b, p + 2);
    if h1.is_none() || h2.is_none() {
        return Err(Error::msg("InvalidCharOffset"));
    }
    let hh: i32 = 10 * h1.unwrap() as i32 + h2.unwrap() as i32;
    let mut mm: i32 = 0;
    let mut ss: i32 = 0;
    if p + 3 != b.len() {
        if b.len() - p < 6 {
            return Err(Error::msg("InvalidCharOffset"));
        }
        let m1 = digit_at(b, p + 4);
        let m2 = digit_at(b, p + 5);
        if m1.is_none() || m2.is_none() {
            return Err(Error::msg("InvalidCharOffset"));
        }
        mm = 10 * m1.unwrap() as i32 + m2.unwrap() as i32;
        if p + 6 != b.len() {
            if b.len() - p != 9 {
                return Err(Error::msg("InvalidCharOffset"));
            }
            let s1 = digit_at(b, p + 7);
            let s2 = digit_at(b, p + 8);
            if s1.is_none() || s2.is_none() {
                return Err(Error::msg("InvalidCharOffset"));
            }
            ss = 10 * s1.unwrap() as i32 + s2.unwrap() as i32;
        }
    }
    if hh > 23 || mm > 59 || ss > 59 {
        return Err(Error::msg("OutOfRangeOffset"));
    }
    let v = hh * 3600 + mm * 60 + ss;
    if c == 45 {
        Ok(Some(-v))
    } else {
        Ok(Some(v))
    }
}

/// Parses the bytes of a `DateTime`'s text; see `parse_datetime_spec`.
pub fn parse_datetime_bytes(b: &[u8], default_offset_sec: i32) -> (r: Result<DateTime, Error>)
    ensures
        parsed_as(r, parse_datetime_spec(b@, default_offset_sec as int)),
{
    let date = match Date::parse_bytes_partial(b) {
        Ok(d) => d,
        Err(e) => return Err(e),
    };
    if b.len() == 10 {
        let o = limit_offset(default_offset_sec);
        return Ok(DateTime::from_parts(date, Time { nano: 0, sec: 0, minute: 0, hour: 0 }, o));
    }
    let (time, n) = match Time::parse_bytes_partial(b, 11) {
        Ok(x) => x,
        Err(e) => return Err(e),
    };
    let p0 = 11 + n;
    let p = if p0 < b.len() && b[p0] == 32 {
        p0 + 1
    } else {
        p0
    };
    match parse_offset(b, p) {
        Err(e) => Err(e),
        Ok(None) => Ok(DateTime::from_parts(date, time, limit_offset(default_offset_sec))),
        Ok(Some(o)) => Ok(DateTime::from_parts(date, time, o)),
    }
}

/// The fraction of the second as shown: none for a whole second, otherwise a dot and
/// three, six or nine digits, the fewest that hold it exactly.
pub open spec fn frac_bytes(nano: int) -> Seq<u8> {
    if nano == 0 {
        seq![]
    } else if nano % 1_000_000 == 0 {
        seq![46u8] + digits_bytes(nano / 1_000_000, 3)
    } else if nano % 1000 == 0 {
        seq![46u8] + digits_bytes(nano / 1000, 6)
    } else {
        seq![46u8] + digits_bytes(nano, 9)
    }
}

/// The offset as shown: `Z` at UTC, otherwise a sign, `hh:mm`, and `:ss` when the
/// offset has seconds.
pub open spec fn offset_bytes(o: int) -> Seq<u8> {
    if o == 0 {
        seq![90u8]
    } else {
        let a = if o < 0 {
            -o
        } else {
            o
        };
        seq![if o < 0 { 45u8 } else { 43u8 }] + two_digit_bytes(a / 3600) + seq![58u8]
            + two_digit_bytes(a % 3600 / 60) + if a % 60 != 0 {
            seq![58u8] + two_digit_bytes(a % 60)
        } else {
            seq![]
        }
    }
}

/// `hh:mm:ss`.
pub open spec fn clock_bytes(t: Time) -> Seq<u8> {
    two_digit_bytes(t.hour as int) + seq![58u8] + two_digit_bytes(t.minute as int) + seq![58u8]
        + two_digit_bytes(t.sec as int)
}

/// The text of a value: the date, `sep`, the time with its fraction, and the offset when
/// `zone` holds.
pub open spec fn datetime_bytes(v: (Date, Time, int), sep: u8, zone: bool) -> Seq<u8> {
    date_bytes(v.0) + seq![sep] + clock_bytes(v.1) + frac_bytes(v.1.nano as int) + if zone {
        offset_bytes(v.2)
    } else {
        seq![]
    }
}

fn push_offset(v: &mut Vec<u8>, o: i32)
    requires
        -MAX_OFFSET <= o <= MAX_OFFSET,
    ensures
        final(v)@ == old(v)@ + offset_bytes(o as int),
{
    if o == 0 {
        v.push(90);
    } else {
        let a: i32 = if o < 0 {
            -o
        } else {
            o
        };
        v.push(if o < 0 {
            45
        } else {
            43
        });
        push_two(v, (a / 3600) as u8);
        v.push(58);
        push_two(v, (a % 3600 / 60) as u8);
        if a % 60 != 0 {
            v.push(58);
            push_two(v, (a % 60) as u8);
        }
    }
    assert(final(v)@ =~= old(v)@ + offset_bytes(o as int));
}

impl DateTime {
    /// The bytes of the text: the date, `sep`, the time with its fraction, and the offset
    /// when `zone` holds.
    pub fn render(&self, sep: u8, zone: bool) -> (r: Vec<u8>)
        ensures
            r@ == datetime_bytes(self@, sep, zone),
    {
        self.valid();
        let d = self.date_part();
        let t = self.time_part();
        let mut v = d.to_bytes();
        v.push(sep);
        push_two(&mut v, t.hour);
        v.push(58);
        push_two(&mut v, t.minute);
        v.push(58);
        push_two(&mut v, t.sec);
        let ghost head = v@;
        let n = t.nano;
        if n != 0 {
            v.push(46);
            if n % 1_000_000 == 0 {
                push_digits(&mut v, n / 1_000_000, 3);
            } else if n % 1000 == 0 {
                push_digits(&mut v, n / 1000, 6);
            } else {
                push_digits(&mut v, n, 9);
            }
        }
        assert(v@ =~= head + frac_bytes(n as int));
        let ghost mid = v@;
        if zone {
            push_offset(&mut v, self.offset());
        }
        assert(v@ =~= datetime_bytes(self@, sep, zone));
        v
    }

    /// `YYYY-MM-DDThh:mm:ss[.fraction]`, followed by the offset when `zone` holds.
    pub fn display(&self, zone: bool) -> (r: String)
        ensures
            r@ == ascii_text(datetime_bytes(self@, 84u8, zone)),
    {
        let b = self.render(84, zone);
        let mut s = String::new();
        push_ascii(&mut s, b.as_slice());
        s
    }

    /// `YYYY-MM-DD hh:mm:ss[.fraction]`, without the offset.
    pub fn display_stand(&self) -> (r: String)
        ensures
            r@ == ascii_text(datetime_bytes(self@, 32u8, false)),
    {
        let b = self.render(32, false);
        let mut s = String::new();
        push_ascii(&mut s, b.as_slice());
        s
    }

    /// The full text with its offset, as `Display` would write it.
    pub fn to_string(&self) -> (r: String)
        ensures
            r@ == ascii_text(datetime_bytes(self@, 84u8, true)),
    {
        self.display(true)
    }

    /// Writes the text (with the offset when `add_zone` holds) at the start of `buf` and
    /// returns its length; the rest of `buf` is unchanged.
    pub fn do_display(&self, buf: &mut [u8; 38], add_zone: bool) -> (r: usize)
        ensures
            r == datetime_bytes(self@, 84u8, add_zone).len(),
            final(buf)@ == datetime_bytes(self@, 84u8, add_zone) + old(buf)@.subrange(
                r as int,
                38,
            ),
    {
        let b = self.render(84, add_zone);
        proof {
            lemma_datetime_bytes_len(self@, 84u8, add_zone);
        }
        let mut i: usize = 0;
        while i < b.len()
            invariant
                b@ == datetime_bytes(self@, 84u8, add_zone),
                b@.len() <= 38,
                i <= b@.len(),
                buf@.len() == 38,
                forall|j: int| 0 <= j < i ==> buf@[j] == b@[j],
                forall|j: int| i <= j < 38 ==> buf@[j] == old(buf)@[j],
            decreases b@.len() - i,
        {
            buf[i] = b[i];
            i = i + 1;
        }
        assert(buf@ =~= datetime_bytes(self@, 84u8, add_zone) + old(buf)@.subrange(
            b@.len() as int,
            38,
        ));
        b.len()
    }

    /// Parses `YYYY-MM-DD[(T| )hh:mm:ss[.fraction][ ](Z|±hh[:mm[:ss]])]`; where the text
    /// gives no offset, `default_offset` (limited to a day) is taken. `Z` is UTC whatever
    /// the default.
    /// The wall-clock fields are taken as written.
    pub fn from_str_default(arg: &str, default_offset: i32) -> (r: Result<DateTime, Error>)
        ensures
            parsed_as(r, parse_datetime_spec(arg.spec_bytes(), default_offset as int)),
    {
        parse_datetime_bytes(arg.as_bytes(), default_offset)
    }
}

} // verus!
