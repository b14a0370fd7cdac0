//! Properties that relate several operations of the library.
use vstd::prelude::*;
use crate::civil::{instant_of, lemma_civil_nanos_injective};
use crate::date::Date;
use crate::datetime::{DateTime, cmp_instants, valid_parts};
use crate::duration::duration_nanos;
use crate::time_of_day::Time;
use core::time::Duration;
use vstd::std_specs::cmp::{PartialEqSpec, PartialOrdSpec};

use crate::codec::{clock_bytes, datetime_bytes, frac_bytes, offset_bytes, parse_datetime_spec, parse_offset_spec, two_digits_at};
use crate::date::{date_bytes, parse_date_spec};
use crate::text::{digit_byte, digit_run, digits_at, digits_bytes, digits_value, dval, is_digit, lemma_pow10_values, pow10, two_digit_bytes};
use crate::time_of_day::{
    lemma_time_full_bytes_len, lemma_trailing_zeros_le, parse_time_spec, time_bytes,
    time_frac_len, time_full_bytes, trailing_zeros,
};
use crate::text::ascii_text;
use vstd::string::StringSliceAdditionalSpecFns;

verus! {

/// A value is fixed by its instant and its offset: converting a wall-clock reading to its
/// instant and back at the same offset gives the same reading.
pub proof fn law_instant_round_trip(d1: Date, t1: Time, d2: Date, t2: Time, offset: int)
    requires
        valid_parts(d1, t1, offset),
        valid_parts(d2, t2, offset),
        instant_of(d2, t2, offset) == instant_of(d1, t1, offset),
    ensures
        d2 == d1,
        t2 == t1,
{
    lemma_civil_nanos_injective(d1, t1, d2, t2);
}

/// Two values are equal exactly when they denote the same instant, whatever their
/// offsets, and they are ordered as their instants are.
pub proof fn law_order_by_instant(a: DateTime, b: DateTime)
    ensures
        a.eq_spec(&b) <==> a.instant() == b.instant(),
        a.partial_cmp_spec(&b) == Some(cmp_instants(a.instant(), b.instant())),
        (a.instant() < b.instant()) ==> a.partial_cmp_spec(&b) == Some(core::cmp::Ordering::Less),
{
}

/// Adding a duration and then taking it away gives back the value.
pub proof fn law_add_then_sub(v: DateTime, w: DateTime, u: DateTime, d: Duration)
    requires
        valid_parts(v@.0, v@.1, v@.2),
        valid_parts(u@.0, u@.1, u@.2),
        w@.2 == v@.2,
        w.instant() == v.instant() + duration_nanos(d),
        u@.2 == w@.2,
        u.instant() == w.instant() - duration_nanos(d),
    ensures
        u@ == v@,
{
    lemma_civil_nanos_injective(v@.0, v@.1, u@.0, u@.1);
}

proof fn lemma_digit_byte(x: int)
    requires
        0 <= x <= 9,
    ensures
        is_digit(digit_byte(x)),
        dval(digit_byte(x)) == x,
{
}

/// The digits that `digits_bytes` writes read back as the number.
proof fn lemma_digits_read_back(s: Seq<u8>, i: int, x: int, k: nat)
    requires
        0 <= i,
        i + k <= s.len(),
        s.subrange(i, i + k) == digits_bytes(x, k),
        0 <= x < pow10(k),
    ensures
        digits_at(s, i, k as int),
        digits_value(s, i, k) == x,
    decreases k,
{
    if k > 0 {
        let k1 = (k - 1) as nat;
        assert(digits_bytes(x, k) == digits_bytes(x / 10, k1).push(digit_byte(x % 10)));
        assert(s.subrange(i, i + k1) == s.subrange(i, i + k).subrange(0, k1 as int));
        assert(digits_bytes(x, k).subrange(0, k1 as int) == digits_bytes(x / 10, k1));
        assert(s[i + k1] == s.subrange(i, i + k)[k1 as int]);
        lemma_digit_byte(x % 10);
        lemma_digits_read_back(s, i, x / 10, k1);
    }
}

proof fn lemma_parse_date_bytes(d: Date, s: Seq<u8>)
    requires
        d.wf(),
        s.len() >= 10,
        s.subrange(0, 10) == date_bytes(d),
    ensures
        parse_date_spec(s) == Ok::<Date, Seq<char>>(d),
{
    let db = date_bytes(d);
    let y = d.year as int;
    let m = d.mon as int;
    let dd = d.day as int;
    assert(db.len() == 10);
    assert forall|j: int| 0 <= j < 10 implies s[j] == db[j] by {
        assert(s.subrange(0, 10)[j] == s[j]);
    }
    lemma_digit_byte(y / 1000);
    lemma_digit_byte(y / 100 % 10);
    lemma_digit_byte(y / 10 % 10);
    lemma_digit_byte(y % 10);
    lemma_digit_byte(m / 10);
    lemma_digit_byte(m % 10);
    lemma_digit_byte(dd / 10);
    lemma_digit_byte(dd % 10);
    assert(s[0] == digit_byte(y / 1000));
    assert(s[1] == digit_byte(y / 100 % 10));
    assert(s[2] == digit_byte(y / 10 % 10));
    assert(s[3] == digit_byte(y % 10));
    assert(s[5] == digit_byte(m / 10));
    assert(s[6] == digit_byte(m % 10));
    assert(s[8] == digit_byte(dd / 10));
    assert(s[9] == digit_byte(dd % 10));
    assert(digits_at(s, 0, 4));
    assert(digits_at(s, 5, 2));
    assert(digits_at(s, 8, 2));
    let yv = 1000 * dval(s[0]) + 100 * dval(s[1]) + 10 * dval(s[2]) + dval(s[3]);
    assert(yv == y);
    assert(10 * dval(s[5]) + dval(s[6]) == m);
    assert(10 * dval(s[8]) + dval(s[9]) == dd);
    assert((yv as u16) == d.year);
}

proof fn lemma_parse_offset_bytes(o: int, s: Seq<u8>, p: int)
    requires
        -86399 <= o <= 86399,
        0 <= p <= s.len(),
        s.subrange(p, s.len() as int) == offset_bytes(o),
    ensures
        parse_offset_spec(s, p) == Ok::<Option<int>, Seq<char>>(Some(o)),
{
    let ob = offset_bytes(o);
    assert forall|j: int| 0 <= j < ob.len() implies s[p + j] == ob[j] by {
        assert(s.subrange(p, s.len() as int)[j] == s[p + j]);
    }
    assert(s.len() == p + ob.len());
    if o == 0 {
        assert(ob.len() == 1);
        assert(ob[0] == 90u8);
        assert(s[p + 0] == ob[0]);
    } else {
        let a = if o < 0 {
            -o
        } else {
            o
        };
        lemma_digit_byte(a / 3600 / 10);
        lemma_digit_byte(a / 3600 % 10);
        lemma_digit_byte(a % 3600 / 60 / 10);
        lemma_digit_byte(a % 3600 / 60 % 10);
        lemma_digit_byte(a % 60 / 10);
        lemma_digit_byte(a % 60 % 10);
        assert(s[p + 1] == ob[1]);
        assert(s[p + 2] == ob[2]);
        assert(s[p + 4] == ob[4]);
        assert(s[p + 5] == ob[5]);
        assert(a == a / 3600 * 3600 + a % 3600 / 60 * 60 + a % 60);
        assert(a / 3600 <= 23);
        assert(s[p + 0] == ob[0]);
        assert(s[p] == (if o < 0 { 45u8 } else { 43u8 }));
        assert(ob.len() == if a % 60 != 0 { 9int } else { 6int });
        assert(digits_at(s, p + 1, 2));
        assert(two_digits_at(s, p + 1) == a / 3600);
        assert(digits_at(s, p + 4, 2));
        assert(two_digits_at(s, p + 4) == a % 3600 / 60);
        if a % 60 != 0 {
            assert(s[p + 7] == ob[7]);
            assert(s[p + 8] == ob[8]);
            assert(digits_at(s, p + 7, 2));
            assert(two_digits_at(s, p + 7) == a % 60);
        }
    }
}

/// The fraction that `frac_bytes` writes at position 19 reads back as the nanoseconds.
proof fn lemma_read_fraction(s: Seq<u8>, nano: int)
    requires
        0 < nano <= 999_999_999,
        19 + frac_bytes(nano).len() < s.len(),
        s.subrange(19, 19 + frac_bytes(nano).len() as int) == frac_bytes(nano),
        !is_digit(s[19 + frac_bytes(nano).len() as int]),
    ensures
        s[19] == 46u8,
        digit_run(s, 20, 10) == frac_bytes(nano).len() - 1,
        digits_value(s, 20, (frac_bytes(nano).len() - 1) as nat) * pow10(
            (10 - frac_bytes(nano).len()) as nat,
        ) == nano,
{
    let fr = frac_bytes(nano);
    crate::time_of_day::lemma_digits_bytes_len(nano, 9);
    crate::time_of_day::lemma_digits_bytes_len(nano / 1000, 6);
    crate::time_of_day::lemma_digits_bytes_len(nano / 1_000_000, 3);
    let f = fr.len() as int;
    lemma_pow10_values();
    assert(s[19] == s.subrange(19, 19 + f)[0]);
    let k: nat = (f - 1) as nat;
    let x = if k == 3 {
        nano / 1_000_000
    } else if k == 6 {
        nano / 1000
    } else {
        nano
    };
    assert(fr == seq![46u8] + digits_bytes(x, k));
    assert(s.subrange(20, 20 + k as int) =~= digits_bytes(x, k)) by {
        assert forall|j: int| 0 <= j < k implies s.subrange(20, 20 + k as int)[j] == digits_bytes(
            x,
            k,
        )[j] by {
            assert(s[20 + j] == s.subrange(19, 19 + f)[1 + j]);
        }
    }
    lemma_digits_read_back(s, 20, x, k);
    assert(digit_run(s, 20, 10) == k) by {
        reveal_with_fuel(digit_run, 11);
        assert(!is_digit(s[20 + k as int]));
    }
    if k == 3 {
        assert(pow10(6) == 1000000);
        assert(nano / 1_000_000 * 1000000 == nano);
    } else if k == 6 {
        assert(pow10(3) == 1000);
        assert(nano / 1000 * 1000 == nano);
    } else {
        assert(pow10(0) == 1);
    }
    assert(x * pow10((9 - k) as nat) == nano);
}

/// Formatting a value and parsing the text gives the value back, whatever default offset
/// the parser is given.
pub proof fn law_text_round_trip(d: Date, t: Time, o: int, default_offset: int)
    requires
        valid_parts(d, t, o),
    ensures
        parse_datetime_spec(datetime_bytes((d, t, o), 84u8, true), default_offset) == Ok::<
            (Date, Time, int),
            Seq<char>,
        >((d, t, o)),
{
    let s = datetime_bytes((d, t, o), 84u8, true);
    let head = date_bytes(d) + seq![84u8] + clock_bytes(t);
    let fr = frac_bytes(t.nano as int);
    let ob = offset_bytes(o);
    assert(s == head + fr + ob);
    assert(head.len() == 19);
    crate::time_of_day::lemma_digits_bytes_len(t.nano as int, 9);
    crate::time_of_day::lemma_digits_bytes_len(t.nano as int / 1000, 6);
    crate::time_of_day::lemma_digits_bytes_len(t.nano as int / 1_000_000, 3);
    let f = fr.len() as int;
    assert(f == 0 || f == 4 || f == 7 || f == 10);
    assert(ob.len() >= 1);
    // The date.
    assert(s.subrange(0, 10) =~= date_bytes(d));
    lemma_parse_date_bytes(d, s);
    // The clock.
    let ck = clock_bytes(t);
    assert forall|j: int| 0 <= j < 8 implies s[11 + j] == ck[j] by {
        assert(s[11 + j] == head[11 + j]);
    }
    let h = t.hour as int;
    let mi = t.minute as int;
    let sc = t.sec as int;
    lemma_digit_byte(h / 10);
    lemma_digit_byte(h % 10);
    lemma_digit_byte(mi / 10);
    lemma_digit_byte(mi % 10);
    lemma_digit_byte(sc / 10);
    lemma_digit_byte(sc % 10);
    assert(s[11] == digit_byte(h / 10));
    assert(s[12] == digit_byte(h % 10));
    assert(s[14] == digit_byte(mi / 10));
    assert(s[15] == digit_byte(mi % 10));
    assert(s[17] == digit_byte(sc / 10));
    assert(s[18] == digit_byte(sc % 10));
    assert(digits_at(s, 11, 2));
    assert(digits_at(s, 14, 2));
    assert(digits_at(s, 17, 2));
    // What follows the fraction is the offset, whose first byte is no digit, dot or space.
    assert(s[19 + f] == ob[0]);
    assert(s.subrange(19 + f, s.len() as int) =~= ob);
    lemma_parse_offset_bytes(o, s, 19 + f);
    if t.nano != 0 {
        assert(s.subrange(19, 19 + f) =~= fr);
        assert(!is_digit(s[19 + f]));
        lemma_read_fraction(s, t.nano as int);
    }
    assert(parse_time_spec(s, 11) == Ok::<(Time, int), Seq<char>>((t, 8 + f)));
}

proof fn lemma_digits_bytes_ascii(x: int, k: nat)
    requires
        0 <= x,
    ensures
        forall|j: int| 0 <= j < digits_bytes(x, k).len() ==> digits_bytes(x, k)[j] < 128,
    decreases k,
{
    if k > 0 {
        lemma_digits_bytes_ascii(x / 10, (k - 1) as nat);
        let p = digits_bytes(x / 10, (k - 1) as nat);
        assert forall|j: int| 0 <= j < digits_bytes(x, k).len() implies digits_bytes(x, k)[j]
            < 128 by {
            if j < p.len() {
                assert(digits_bytes(x, k)[j] == p[j]);
            }
        }
    }
}

proof fn lemma_two_digits_ascii(x: int)
    requires
        0 <= x <= 99,
    ensures
        forall|j: int| 0 <= j < two_digit_bytes(x).len() ==> two_digit_bytes(x)[j] < 128,
{
}

/// Every byte of a value's text is ASCII.
proof fn lemma_datetime_bytes_ascii(d: Date, t: Time, o: int)
    requires
        valid_parts(d, t, o),
    ensures
        forall|j: int|
            0 <= j < datetime_bytes((d, t, o), 84u8, true).len() ==> datetime_bytes(
                (d, t, o),
                84u8,
                true,
            )[j] < 128,
{
    let s = datetime_bytes((d, t, o), 84u8, true);
    let head = date_bytes(d) + seq![84u8] + clock_bytes(t);
    let fr = frac_bytes(t.nano as int);
    let ob = offset_bytes(o);
    assert(s == head + fr + ob);
    lemma_digits_bytes_ascii(t.nano as int, 9);
    lemma_digits_bytes_ascii(t.nano as int / 1000, 6);
    lemma_digits_bytes_ascii(t.nano as int / 1_000_000, 3);
    let a = if o < 0 {
        -o
    } else {
        o
    };
    lemma_two_digits_ascii(a / 3600);
    lemma_two_digits_ascii(a % 3600 / 60);
    lemma_two_digits_ascii(a % 60);
    assert forall|j: int| 0 <= j < s.len() implies s[j] < 128 by {
        if j < head.len() {
            assert(s[j] == head[j]);
        } else if j < head.len() + fr.len() {
            assert(s[j] == fr[j - head.len()]);
            if j > head.len() {
                if t.nano % 1_000_000 == 0 {
                    assert(fr[j - head.len()] == digits_bytes(t.nano as int / 1_000_000, 3)[j
                        - head.len() - 1]);
                } else if t.nano % 1000 == 0 {
                    assert(fr[j - head.len()] == digits_bytes(t.nano as int / 1000, 6)[j
                        - head.len() - 1]);
                } else {
                    assert(fr[j - head.len()] == digits_bytes(t.nano as int, 9)[j - head.len()
                        - 1]);
                }
            }
        } else {
            assert(s[j] == ob[j - head.len() - fr.len()]);
        }
    }
}

/// The text that `DateTime::to_string` gives parses back, through `DateTime::from_str_default`,
/// to the value it was made from.
pub proof fn law_string_round_trip(v: DateTime, text: &str, default_offset: int)
    requires
        valid_parts(v@.0, v@.1, v@.2),
        text@ == ascii_text(datetime_bytes(v@, 84u8, true)),
    ensures
        parse_datetime_spec(text.spec_bytes(), default_offset) == Ok::<(Date, Time, int), Seq<char>>(
            v@,
        ),
{
    let b = datetime_bytes(v@, 84u8, true);
    lemma_datetime_bytes_ascii(v@.0, v@.1, v@.2);
    assert(vstd::string::is_ascii(text)) by {
        assert forall|i: int| 0 <= i < text@.len() implies '\0' <= #[trigger] text@[i] <= '\u{7f}' by {
            assert(text@[i] == b[i] as char);
        }
    }
    vstd::string::is_ascii_spec_bytes(text);
    assert(text.spec_bytes() =~= b);
    law_text_round_trip(v@.0, v@.1, v@.2, default_offset);
}

proof fn lemma_pow10_add(a: nat, b: nat)
    ensures
        pow10(a + b) == pow10(a) * pow10(b),
    decreases a,
{
    if a > 0 {
        lemma_pow10_add((a - 1) as nat, b);
        let p = pow10((a - 1) as nat);
        let q = pow10(b);
        assert(10 * (p * q) == (10 * p) * q) by (nonlinear_arith);
    }
}

/// The first `n` of `n + m` digits of `v` are the `n` digits of `v` without its last `m`.
proof fn lemma_digits_prefix(v: int, n: nat, m: nat)
    requires
        0 <= v,
    ensures
        digits_bytes(v, n + m).subrange(0, n as int) == digits_bytes(v / pow10(m), n),
    decreases m,
{
    crate::time_of_day::lemma_digits_bytes_len(v, n + m);
    if m == 0 {
        assert(digits_bytes(v, n + m).subrange(0, n as int) =~= digits_bytes(v, n));
    } else {
        let m1 = (m - 1) as nat;
        crate::time_of_day::lemma_digits_bytes_len(v / 10, n + m1);
        lemma_digits_prefix(v / 10, n, m1);
        assert(digits_bytes(v, n + m) == digits_bytes(v / 10, n + m1).push(digit_byte(v % 10)));
        assert(digits_bytes(v, n + m).subrange(0, n as int) =~= digits_bytes(v / 10, n + m1).subrange(
            0,
            n as int,
        ));
        crate::text::lemma_pow10_mono(0, m1);
        vstd::arithmetic::div_mod::lemma_div_denominator(v, 10, pow10(m1));
        assert(pow10(m) == 10 * pow10(m1));
        assert(v / pow10(m) == (v / 10) / pow10(m1));
    }
}

/// A number is a multiple of ten to the power of its trailing zeros.
proof fn lemma_trailing_zeros_divide(n: int, cap: nat)
    requires
        0 <= n,
    ensures
        n % pow10(trailing_zeros(n, cap)) == 0,
    decreases cap,
{
    if cap == 0 || n % 10 != 0 {
        assert(pow10(0) == 1);
    } else {
        let t1 = trailing_zeros(n / 10, (cap - 1) as nat);
        lemma_trailing_zeros_divide(n / 10, (cap - 1) as nat);
        crate::text::lemma_pow10_mono(0, t1);
        let p = pow10(t1);
        vstd::arithmetic::div_mod::lemma_fundamental_div_mod(n / 10, p);
        let q = (n / 10) / p;
        assert(n == (q * p) * 10);
        assert((q * p) * 10 == q * (10 * p)) by (nonlinear_arith);
        assert(pow10(t1 + 1) == 10 * p);
        vstd::arithmetic::div_mod::lemma_mod_multiples_basic(q, 10 * p);
    }
}

/// Digits that run to the end of the text are all that `digit_run` counts.
proof fn lemma_digit_run_to_end(s: Seq<u8>, i: int, k: nat, cap: nat)
    requires
        digits_at(s, i, k as int),
        i + k == s.len(),
        k <= cap,
    ensures
        digit_run(s, i, cap) == k,
    decreases k,
{
    if k > 0 {
        assert(is_digit(s[i]));
        lemma_digit_run_to_end(s, i + 1, (k - 1) as nat, (cap - 1) as nat);
    }
}

/// The text of a time of day parses back to that time, all of the text being read.
pub proof fn law_time_text_round_trip(t: Time)
    requires
        t.wf(),
    ensures
        parse_time_spec(time_bytes(t), 0) == Ok::<(Time, int), Seq<char>>(
            (t, time_bytes(t).len() as int),
        ),
{
    let s = time_bytes(t);
    let full = time_full_bytes(t);
    lemma_time_full_bytes_len(t);
    let nano = t.nano as int;
    let tz = trailing_zeros(nano, 8);
    lemma_trailing_zeros_le(nano, 8);
    let len = 8 + time_frac_len(nano);
    assert(s.len() == len);
    assert forall|j: int| 0 <= j < len implies s[j] == full[j] by {}
    let h = t.hour as int;
    let mi = t.minute as int;
    let sc = t.sec as int;
    lemma_digit_byte(h / 10);
    lemma_digit_byte(h % 10);
    lemma_digit_byte(mi / 10);
    lemma_digit_byte(mi % 10);
    lemma_digit_byte(sc / 10);
    lemma_digit_byte(sc % 10);
    assert(s[0] == digit_byte(h / 10));
    assert(s[1] == digit_byte(h % 10));
    assert(s[3] == digit_byte(mi / 10));
    assert(s[4] == digit_byte(mi % 10));
    assert(s[6] == digit_byte(sc / 10));
    assert(s[7] == digit_byte(sc % 10));
    assert(digits_at(s, 0, 2));
    assert(digits_at(s, 3, 2));
    assert(digits_at(s, 6, 2));
    if nano != 0 {
        let k: nat = (9 - tz) as nat;
        assert(len == 9 + k);
        assert(s[8] == 46u8);
        crate::time_of_day::lemma_digits_bytes_len(nano, 9);
        lemma_digits_prefix(nano, k, tz);
        assert(k + tz == 9);
        let d = pow10(tz);
        crate::text::lemma_pow10_mono(0, tz);
        let x = nano / d;
        assert(s.subrange(9, 9 + k as int) =~= digits_bytes(x, k)) by {
            assert forall|j: int| 0 <= j < k implies s.subrange(9, 9 + k as int)[j] == digits_bytes(
                x,
                k,
            )[j] by {
                assert(s[9 + j] == full[9 + j]);
                assert(full[9 + j] == digits_bytes(nano, 9)[j]);
                assert(digits_bytes(nano, 9).subrange(0, k as int)[j] == digits_bytes(nano, 9)[j]);
            }
        }
        lemma_pow10_add(k, tz);
        lemma_pow10_values();
        let p = pow10(k);
        assert(x < p) by (nonlinear_arith)
            requires
                0 <= nano < p * d,
                d > 0,
                x == nano / d,
        ;
        lemma_digits_read_back(s, 9, x, k);
        lemma_digit_run_to_end(s, 9, k, 10);
        lemma_trailing_zeros_divide(nano, 8);
        vstd::arithmetic::div_mod::lemma_fundamental_div_mod(nano, d);
        assert((9 - k) as nat == tz);
        assert(x * d == d * x) by (nonlinear_arith);
        assert(x * pow10((9 - k) as nat) == nano);
    }
}

/// The text that `Time::to_string` gives parses back, through `Time::from_str`, to the
/// time it was made from.
pub proof fn law_time_string_round_trip(t: Time, text: &str)
    requires
        t.wf(),
        text@ == ascii_text(time_bytes(t)),
    ensures
        parse_time_spec(text.spec_bytes(), 0) matches Ok((u, _)) && u == t,
{
    let b = time_bytes(t);
    lemma_time_full_bytes_len(t);
    lemma_trailing_zeros_le(t.nano as int, 8);
    crate::time_of_day::lemma_digits_bytes_len(t.nano as int, 9);
    lemma_digits_bytes_ascii(t.nano as int, 9);
    let full = time_full_bytes(t);
    lemma_two_digits_ascii(t.hour as int);
    lemma_two_digits_ascii(t.minute as int);
    lemma_two_digits_ascii(t.sec as int);
    assert forall|j: int| 0 <= j < 18 implies full[j] < 128 by {
        if j >= 9 {
            assert(full[j] == digits_bytes(t.nano as int, 9)[j - 9]);
        }
    }
    assert(vstd::string::is_ascii(text)) by {
        assert forall|i: int| 0 <= i < text@.len() implies '\0' <= #[trigger] text@[i] <= '\u{7f}' by {
            assert(text@[i] == b[i] as char);
            assert(b[i] == full[i]);
        }
    }
    vstd::string::is_ascii_spec_bytes(text);
    assert(text.spec_bytes() =~= b);
    law_time_text_round_trip(t);
}

} // verus!
