//! Calendar dates.
use vstd::prelude::*;
use crate::civil::{days_in_month, month_days, valid_date};
use crate::error::Error;
use vstd::string::StringSliceAdditionalSpecFns;
use crate::text::{digit_at, digits_at, dval, four_digit_bytes, push_ascii, ascii_text, two_digit_bytes};

verus! {

/// A date of the proleptic Gregorian calendar, years 0 to 9999.
#[derive(Clone, Copy, Debug, PartialEq, Eq, Structural, Hash)]
pub struct Date {
    /// 1...31
    pub day: u8,
    /// 1...12
    pub mon: u8,
    /// 0...9999
    pub year: u16,
}

/// What parsing a date from the bytes `b` gives: the first ten bytes are read as
/// `YYYY?MM?DD`, whatever stands at the two separator positions and after them.
pub open spec fn parse_date_spec(b: Seq<u8>) -> Result<Date, Seq<char>> {
    if b.len() < 10 {
        Err("TooShort"@)
    } else if !digits_at(b, 0, 4) {
        Err("InvalidCharYear"@)
    } else if !digits_at(b, 5, 2) {
        Err("InvalidCharMonth"@)
    } else if !digits_at(b, 8, 2) {
        Err("InvalidCharDay"@)
    } else {
        let y = 1000 * dval(b[0]) + 100 * dval(b[1]) + 10 * dval(b[2]) + dval(b[3]);
        let m = 10 * dval(b[5]) + dval(b[6]);
        let d = 10 * dval(b[8]) + dval(b[9]);
        if !(1 <= m <= 12) {
            Err("OutOfRangeMonth"@)
        } else if !(1 <= d <= days_in_month(y, m)) {
            Err("OutOfRangeDay"@)
        } else {
            Ok(Date { day: d as u8, mon: m as u8, year: y as u16 })
        }
    }
}

/// `YYYY-MM-DD`.
pub open spec fn date_bytes(d: Date) -> Seq<u8> {
    four_digit_bytes(d.year as int) + seq![45u8] + two_digit_bytes(d.mon as int) + seq![45u8]
        + two_digit_bytes(d.day as int)
}

impl Date {
    /// Whether the fields name a real day of the years 0 to 9999.
    pub open spec fn wf(&self) -> bool {
        valid_date(self.year as int, self.mon as int, self.day as int)
    }

    /// Whether the fields name a real day of the years 0 to 9999.
    pub fn is_valid(&self) -> (r: bool)
        ensures
            r == self.wf(),
    {
        self.year <= 9999 && 1 <= self.mon && self.mon <= 12 && 1 <= self.day
            && self.day <= month_days(self.year as i32, self.mon)
    }

    /// Parses a date from the first ten bytes of `bytes`; what follows them is not read.
    pub fn parse_bytes_partial(bytes: &[u8]) -> (r: Result<Date, Error>)
        ensures
            match (r, parse_date_spec(bytes@)) {
                (Ok(a), Ok(b)) => a == b && a.wf(),
                (Err(e), Err(m)) => e.message() == m,
                _ => false,
            },
    {
        if bytes.len() < 10 {
            return Err(Error::msg("TooShort"));
        }
        let y1 = digit_at(bytes, 0);
        let y2 = digit_at(bytes, 1);
        let y3 = digit_at(bytes, 2);
        let y4 = digit_at(bytes, 3);
        if y1.is_none() || y2.is_none() || y3.is_none() || y4.is_none() {
            return Err(Error::msg("InvalidCharYear"));
        }
        let m1 = digit_at(bytes, 5);
        let m2 = digit_at(bytes, 6);
        if m1.is_none() || m2.is_none() {
            return Err(Error::msg("InvalidCharMonth"));
        }
        let d1 = digit_at(bytes, 8);
        let d2 = digit_at(bytes, 9);
        if d1.is_none() || d2.is_none() {
            return Err(Error::msg("InvalidCharDay"));
        }
        let year: i32 = 1000 * y1.unwrap() as i32 + 100 * y2.unwrap() as i32 + 10 * y3.unwrap() as i32
            + y4.unwrap() as i32;
        let month: u8 = 10 * m1.unwrap() + m2.unwrap();
        let day: u8 = 10 * d1.unwrap() + d2.unwrap();
        if month < 1 || month > 12 {
            return Err(Error::msg("OutOfRangeMonth"));
        }
        if day < 1 || day > month_days(year, month) {
            return Err(Error::msg("OutOfRangeDay"));
        }
        Ok(Date { day, mon: month, year: year as u16 })
    }

    /// Parses `YYYY-MM-DD` (any separator bytes); text after the date is not read.
    pub fn from_str(s: &str) -> (r: Result<Date, Error>)
        ensures
            match (r, parse_date_spec(s.spec_bytes())) {
                (Ok(a), Ok(b)) => a == b && a.wf(),
                (Err(e), Err(m)) => e.message() == m,
                _ => false,
            },
    {
        Date::parse_bytes_partial(s.as_bytes())
    }

    /// Sets the day, when it is a day of this date's month; otherwise the date is unchanged.
    pub fn set_day(self, arg: u8) -> (r: Date)
        ensures
            r == (if self.wf() && 1 <= arg <= days_in_month(self.year as int, self.mon as int) {
                Date { day: arg, ..self }
            } else {
                self
            }),
    {
        if self.year <= 9999 && 1 <= self.mon && self.mon <= 12 && 1 <= self.day
            && self.day <= month_days(self.year as i32, self.mon) && 1 <= arg && arg <= month_days(
            self.year as i32,
            self.mon,
        ) {
            Date { day: arg, ..self }
        } else {
            self
        }
    }

    /// Sets the month, when the day exists in it; otherwise the date is unchanged.
    pub fn set_mon(self, arg: u8) -> (r: Date)
        ensures
            r == (if self.wf() && valid_date(self.year as int, arg as int, self.day as int) {
                Date { mon: arg, ..self }
            } else {
                self
            }),
    {
        if self.year <= 9999 && 1 <= self.mon && self.mon <= 12 && 1 <= self.day
            && self.day <= month_days(self.year as i32, self.mon) && 1 <= arg && arg <= 12 && self.day
            <= month_days(self.year as i32, arg) {
            Date { mon: arg, ..self }
        } else {
            self
        }
    }

    /// Sets the year, when it lies in 0 to 9999 and the day exists in it; otherwise the
    /// date is unchanged.
    pub fn set_year(self, arg: i32) -> (r: Date)
        ensures
            r == (if self.wf() && valid_date(arg as int, self.mon as int, self.day as int) {
                Date { year: arg as u16, ..self }
            } else {
                self
            }),
    {
        if self.year <= 9999 && 1 <= self.mon && self.mon <= 12 && 1 <= self.day
            && self.day <= month_days(self.year as i32, self.mon) && 0 <= arg && arg <= 9999
            && self.day <= month_days(arg, self.mon) {
            Date { year: arg as u16, ..self }
        } else {
            self
        }
    }

    pub fn get_day(&self) -> (r: u8)
        ensures
            r == self.day,
    {
        self.day
    }

    pub fn get_mon(&self) -> (r: u8)
        ensures
            r == self.mon,
    {
        self.mon
    }

    pub fn get_year(&self) -> (r: u16)
        ensures
            r == self.year,
    {
        self.year
    }

    /// Writes the digits of `YYYY-MM-DD` into `buf` from `start`, leaving the two separator
    /// positions as they are, and returns `start + 10`.
    pub fn display_date(&self, start: usize, buf: &mut [u8]) -> (r: usize)
        requires
            self.wf(),
            start + 10 <= old(buf)@.len(),
        ensures
            r == start + 10,
            final(buf)@.len() == old(buf)@.len(),
            forall|i: int|
                #![trigger final(buf)@[i]]
                0 <= i < old(buf)@.len() ==> final(buf)@[i] == if start <= i < start + 10 && i
                    != start + 4 && i != start + 7 {
                    date_bytes(*self)[i - start]
                } else {
                    old(buf)@[i]
                },
    {
        let y = self.year as u16;
        buf[start] = 48 + (y / 1000) as u8;
        buf[start + 1] = 48 + (y / 100 % 10) as u8;
        buf[start + 2] = 48 + (y / 10 % 10) as u8;
        buf[start + 3] = 48 + (y % 10) as u8;
        buf[start + 5] = 48 + self.mon / 10;
        buf[start + 6] = 48 + self.mon % 10;
        buf[start + 8] = 48 + self.day / 10;
        buf[start + 9] = 48 + self.day % 10;
        start + 10
    }

    /// The bytes of `YYYY-MM-DD`.
    pub fn to_bytes(&self) -> (r: Vec<u8>)
        requires
            self.wf(),
        ensures
            r@ == date_bytes(*self),
    {
        let mut buf: Vec<u8> = vec![48u8, 48, 48, 48, 45, 48, 48, 45, 48, 48];
        self.display_date(0, buf.as_mut_slice());
        assert(buf@ == date_bytes(*self));
        buf
    }

    /// `YYYY-MM-DD`, as `Display` would write it.
    pub fn to_string(&self) -> (r: String)
        requires
            self.wf(),
        ensures
            r@ == ascii_text(date_bytes(*self)),
    {
        let b = self.to_bytes();
        let mut s = String::new();
        push_ascii(&mut s, b.as_slice());
        s
    }
}

impl core::str::FromStr for Date {
    type Err = Error;

    fn from_str(s: &str) -> Result<Date, Error> {
        Date::from_str(s)
    }
}

} // verus!
