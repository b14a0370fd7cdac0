//! Parsing and formatting by a template of tokens: `YYYY`, `MM`, `DD`, `hh`, `mm`, `ss`,
//! `.000000`, `.000000000`, `Z` and `+00:00`, each standing where its field stands.
use vstd::prelude::*;
use vstd::string::StringSliceAdditionalSpecFns;
use crate::codec::{parse_datetime_bytes, parse_datetime_spec, parsed_as};
use crate::datetime::{DateTime, MAX_OFFSET};
use crate::error::Error;
use crate::local::offset_sec;
use crate::text::{
    ascii_text, digits_bytes, four_digit_bytes, push_ascii, push_digits, push_two,
    two_digit_bytes,
};
use vstd::string::StrSliceExecFns;

verus! {

/// The first position at or after `i` where `tok` occurs in `h`.
pub open spec fn find_from(h: Seq<u8>, tok: Seq<u8>, i: int) -> Option<int>
    decreases h.len() + 1 - i,
{
    if i < 0 || i + tok.len() > h.len() {
        None
    } else if h.subrange(i, i + tok.len()) == tok {
        Some(i)
    } else {
        find_from(h, tok, i + 1)
    }
}

/// `b` with `src` written over it from position `dest`.
pub open spec fn splice(b: Seq<u8>, dest: int, src: Seq<u8>) -> Seq<u8> {
    b.subrange(0, dest) + src + b.subrange(dest + src.len(), b.len() as int)
}

/// Where `tok` stands in the template `f`, the `width` bytes of `a` at that position
/// written over `b` from `dest`; an error named after the token when `a` is too short.
pub open spec fn copy_token(
    f: Seq<u8>,
    a: Seq<u8>,
    b: Result<Seq<u8>, Seq<char>>,
    tok: Seq<u8>,
    dest: int,
    width: int,
    msg: Seq<char>,
) -> Result<Seq<u8>, Seq<char>> {
    match b {
        Err(e) => Err(e),
        Ok(b) => match find_from(f, tok, 0) {
            None => Ok(b),
            Some(i) => if i + width <= a.len() {
                Ok(splice(b, dest, a.subrange(i, i + width)))
            } else {
                Err(msg)
            },
        },
    }
}

pub open spec fn tok_year() -> Seq<u8> {
    seq![89u8, 89, 89, 89]
}

pub open spec fn tok_mon() -> Seq<u8> {
    seq![77u8, 77]
}

pub open spec fn tok_day() -> Seq<u8> {
    seq![68u8, 68]
}

pub open spec fn tok_hour() -> Seq<u8> {
    seq![104u8, 104]
}

pub open spec fn tok_minute() -> Seq<u8> {
    seq![109u8, 109]
}

pub open spec fn tok_sec() -> Seq<u8> {
    seq![115u8, 115]
}

pub open spec fn tok_nanos() -> Seq<u8> {
    seq![46u8, 48, 48, 48, 48, 48, 48, 48, 48, 48]
}

pub open spec fn tok_micros() -> Seq<u8> {
    seq![46u8, 48, 48, 48, 48, 48, 48]
}

pub open spec fn tok_utc() -> Seq<u8> {
    seq![90u8]
}

pub open spec fn tok_offset() -> Seq<u8> {
    seq![43u8, 48, 48, 58, 48, 48]
}

/// `0000-00-00T00:00:00`.
pub open spec fn canonical_head() -> Seq<u8> {
    seq![48u8, 48, 48, 48, 45, 48, 48, 45, 48, 48, 84, 48, 48, 58, 48, 48, 58, 48, 48]
}

/// The date and time fields of `a` at the template's positions, laid out as
/// `YYYY-MM-DDThh:mm:ss`.
pub open spec fn template_head(f: Seq<u8>, a: Seq<u8>) -> Result<Seq<u8>, Seq<char>> {
    let b0 = Ok(canonical_head());
    let b1 = copy_token(f, a, b0, tok_year(), 0, 4, "wrong YYYY format"@);
    let b2 = copy_token(f, a, b1, tok_mon(), 5, 2, "wrong MM format"@);
    let b3 = copy_token(f, a, b2, tok_day(), 8, 2, "wrong DD format"@);
    let b4 = copy_token(f, a, b3, tok_hour(), 11, 2, "wrong hh format"@);
    let b5 = copy_token(f, a, b4, tok_minute(), 14, 2, "wrong mm format"@);
    copy_token(f, a, b5, tok_sec(), 17, 2, "wrong ss format"@)
}

/// The fraction of `a` at the template's position of `.000000000`, or else of `.000000`.
pub open spec fn template_frac(f: Seq<u8>, a: Seq<u8>) -> Result<Seq<u8>, Seq<char>> {
    match find_from(f, tok_nanos(), 0) {
        Some(i) => if i + 10 <= a.len() {
            Ok(a.subrange(i, i + 10))
        } else {
            Err("wrong .000000000 format"@)
        },
        None => match find_from(f, tok_micros(), 0) {
            Some(i) => if i + 7 <= a.len() {
                Ok(a.subrange(i, i + 7))
            } else {
                Err("wrong .000000 format"@)
            },
            None => Ok(seq![]),
        },
    }
}

/// The offset part: `Z` where the template holds `Z`, then the six bytes of `a` at the
/// template's `+00:00`; where it holds neither, nothing, so that the parser's default
/// offset applies.
pub open spec fn template_zone(f: Seq<u8>, a: Seq<u8>) -> Result<
    Seq<u8>,
    Seq<char>,
> {
    let z = if find_from(f, tok_utc(), 0).is_some() {
        seq![90u8]
    } else {
        seq![]
    };
    match find_from(f, tok_offset(), 0) {
        Some(i) => if i + 6 <= a.len() {
            Ok(z + a.subrange(i, i + 6))
        } else {
            Err("wrong +00:00 format"@)
        },
        None => Ok(z),
    }
}

/// The standard text that the template `f` and the text `a` make, before it is parsed.
pub open spec fn template_text(f: Seq<u8>, a: Seq<u8>) -> Result<
    Seq<u8>,
    Seq<char>,
> {
    match template_head(f, a) {
        Err(e) => Err(e),
        Ok(h) => match template_frac(f, a) {
            Err(e) => Err(e),
            Ok(fr) => match template_zone(f, a) {
                Err(e) => Err(e),
                Ok(z) => Ok(h + fr + z),
            },
        },
    }
}

/// What parsing `a` by the template `f` gives.
pub open spec fn parse_template_spec(f: Seq<u8>, a: Seq<u8>, default_offset: int) -> Result<
    (crate::date::Date, crate::time_of_day::Time, int),
    Seq<char>,
> {
    match template_text(f, a) {
        Err(e) => Err(e),
        Ok(t) => parse_datetime_spec(t, default_offset),
    }
}

/// The first position at or after `from` where `tok` occurs in `h`.
fn find_bytes(h: &[u8], tok: &[u8], from: usize) -> (r: Option<usize>)
    requires
        tok@.len() > 0,
    ensures
        match r {
            Some(i) => find_from(h@, tok@, from as int) == Some(i as int),
            None => find_from(h@, tok@, from as int) is None,
        },
    decreases h@.len() - from,
{
    if from > h.len() || tok.len() > h.len() - from {
        return None;
    }
    let mut j: usize = 0;
    while j < tok.len()
        invariant
            j <= tok@.len(),
            from + tok@.len() <= h@.len(),
            h@.len() <= usize::MAX,
            forall|k: int| 0 <= k < j ==> h@[from + k] == tok@[k],
        decreases tok@.len() - j,
    {
        assert(from + j < h@.len());
        if h[from + j] != tok[j] {
            assert(h@.subrange(from as int, from + tok@.len())[j as int] != tok@[j as int]);
            return find_bytes(h, tok, from + 1);
        }
        j = j + 1;
    }
    assert(h@.subrange(from as int, from + tok@.len()) =~= tok@);
    Some(from)
}

/// Writes `width` bytes of `a` from `src` over `b` from `dest`.
fn copy_into(b: &mut Vec<u8>, dest: usize, a: &[u8], src: usize, width: usize)
    requires
        dest + width <= old(b)@.len(),
        src + width <= a@.len(),
    ensures
        final(b)@ == splice(old(b)@, dest as int, a@.subrange(src as int, src + width)),
{
    let bl = b.len();
    let al = a.len();
    let mut k: usize = 0;
    while k < width
        invariant
            k <= width,
            b@.len() == bl,
            a@.len() == al,
            dest + width <= b@.len(),
            src + width <= a@.len(),
            b@.len() == old(b)@.len(),
            forall|j: int| 0 <= j < dest ==> b@[j] == old(b)@[j],
            forall|j: int| dest + width <= j < b@.len() ==> b@[j] == old(b)@[j],
            forall|j: int| dest <= j < dest + k ==> b@[j] == a@[src + j - dest],
            forall|j: int| dest + k <= j < dest + width ==> b@[j] == old(b)@[j],
        decreases width - k,
    {
        assert(dest + k < b@.len() && src + k < a@.len());
        b.set(dest + k, a[src + k]);
        k = k + 1;
    }
    assert(b@ =~= splice(old(b)@, dest as int, a@.subrange(src as int, src + width)));
}

/// One step of `template_head`; see `copy_token`.
fn copy_token_exec(
    f: &[u8],
    a: &[u8],
    b: &mut Vec<u8>,
    tok: &[u8],
    dest: usize,
    width: usize,
    msg: &str,
) -> (r: Result<(), Error>)
    requires
        tok@.len() > 0,
        dest + width <= old(b)@.len(),
    ensures
        match copy_token(f@, a@, Ok(old(b)@), tok@, dest as int, width as int, msg@) {
            Ok(nb) => r is Ok && final(b)@ == nb,
            Err(m) => r matches Err(e) && e.message() == m,
        },
{
    match find_bytes(f, tok, 0) {
        None => Ok(()),
        Some(i) => {
            if width <= a.len() && i <= a.len() - width {
                copy_into(b, dest, a, i, width);
                Ok(())
            } else {
                Err(Error::msg(msg))
            }
        },
    }
}

/// Builds the standard text; see `template_text`.
fn template_text_exec(f: &[u8], a: &[u8]) -> (r: Result<Vec<u8>, Error>)
    ensures
        match template_text(f@, a@) {
            Ok(t) => r matches Ok(v) && v@ == t,
            Err(m) => r matches Err(e) && e.message() == m,
        },
{
    let mut b: Vec<u8> = vec![48u8, 48, 48, 48, 45, 48, 48, 45, 48, 48, 84, 48, 48, 58, 48, 48, 58, 48, 48];
    assert(b@ =~= canonical_head());
    let ty: [u8; 4] = [89, 89, 89, 89];
    let tm: [u8; 2] = [77, 77];
    let td: [u8; 2] = [68, 68];
    let th: [u8; 2] = [104, 104];
    let tmi: [u8; 2] = [109, 109];
    let ts: [u8; 2] = [115, 115];
    assert(ty@ =~= tok_year());
    assert(tm@ =~= tok_mon());
    assert(td@ =~= tok_day());
    assert(th@ =~= tok_hour());
    assert(tmi@ =~= tok_minute());
    assert(ts@ =~= tok_sec());
    match copy_token_exec(f, a, &mut b, &ty, 0, 4, "wrong YYYY format") {
        Err(e) => return Err(e),
        Ok(_) => {},
    }
    match copy_token_exec(f, a, &mut b, &tm, 5, 2, "wrong MM format") {
        Err(e) => return Err(e),
        Ok(_) => {},
    }
    match copy_token_exec(f, a, &mut b, &td, 8, 2, "wrong DD format") {
        Err(e) => return Err(e),
        Ok(_) => {},
    }
    match copy_token_exec(f, a, &mut b, &th, 11, 2, "wrong hh format") {
        Err(e) => return Err(e),
        Ok(_) => {},
    }
    match copy_token_exec(f, a, &mut b, &tmi, 14, 2, "wrong mm format") {
        Err(e) => return Err(e),
        Ok(_) => {},
    }
    match copy_token_exec(f, a, &mut b, &ts, 17, 2, "wrong ss format") {
        Err(e) => return Err(e),
        Ok(_) => {},
    }
    let ghost head = b@;
    assert(template_head(f@, a@) == Ok::<Seq<u8>, Seq<char>>(head));
    let tn: [u8; 10] = [46, 48, 48, 48, 48, 48, 48, 48, 48, 48];
    let tu: [u8; 7] = [46, 48, 48, 48, 48, 48, 48];
    assert(tn@ =~= tok_nanos());
    assert(tu@ =~= tok_micros());
    match find_bytes(f, &tn, 0) {
        Some(i) => {
            if 10 <= a.len() && i <= a.len() - 10 {
                append_range(&mut b, a, i, 10);
            } else {
                return Err(Error::msg("wrong .000000000 format"));
            }
        },
        None => match find_bytes(f, &tu, 0) {
            Some(i) => {
                if 7 <= a.len() && i <= a.len() - 7 {
                    append_range(&mut b, a, i, 7);
                } else {
                    return Err(Error::msg("wrong .000000 format"));
                }
            },
            None => {},
        },
    }
    let ghost with_frac = b@;
    assert(template_frac(f@, a@) matches Ok(fr) && with_frac == head + fr);
    let tz: [u8; 1] = [90];
    let to: [u8; 6] = [43, 48, 48, 58, 48, 48];
    assert(tz@ =~= tok_utc());
    assert(to@ =~= tok_offset());
    let has_z = find_bytes(f, &tz, 0).is_some();
    if has_z {
        b.push(90);
    }
    match find_bytes(f, &to, 0) {
        Some(i) => {
            if 6 <= a.len() && i <= a.len() - 6 {
                append_range(&mut b, a, i, 6);
            } else {
                return Err(Error::msg("wrong +00:00 format"));
            }
        },
        None => {},
    }
    proof {
        let z = template_zone(f@, a@);
        assert(z matches Ok(zz) && b@ =~= with_frac + zz);
    }
    Ok(b)
}

/// Appends `width` bytes of `a` from `src`.
fn append_range(b: &mut Vec<u8>, a: &[u8], src: usize, width: usize)
    requires
        src + width <= a@.len(),
    ensures
        final(b)@ == old(b)@ + a@.subrange(src as int, src + width),
{
    let al = a.len();
    let mut k: usize = 0;
    while k < width
        invariant
            k <= width,
            a@.len() == al,
            src + width <= a@.len(),
            b@ == old(b)@ + a@.subrange(src as int, src + k),
        decreases width - k,
    {
        assert(src + k < a@.len());
        b.push(a[src + k]);
        k = k + 1;
        assert(b@ =~= old(b)@ + a@.subrange(src as int, src + k));
    }
}

/// Parses `arg` by the template `format`, taking `default_offset` where the template
/// gives no offset.
pub fn parse_template(format: &[u8], arg: &[u8], default_offset: i32) -> (r: Result<DateTime, Error>)
    ensures
        parsed_as(r, parse_template_spec(format@, arg@, default_offset as int)),
{
    match template_text_exec(format, arg) {
        Err(e) => Err(e),
        Ok(t) => parse_datetime_bytes(t.as_slice(), default_offset),
    }
}

impl DateTime {
    /// Parses `arg` by the template `format`: the bytes of `arg` at the position of each
    /// token of `format` are read as that field. Where the template gives no offset, the
    /// host's offset is taken.
    pub fn parse(format: &str, arg: &str) -> (r: Result<DateTime, Error>)
        ensures
            exists|o: int|
                -MAX_OFFSET <= o <= MAX_OFFSET && parsed_as(
                    r,
                    parse_template_spec(format.spec_bytes(), arg.spec_bytes(), o),
                ),
    {
        let o = offset_sec();
        parse_template(format.as_bytes(), arg.as_bytes(), o)
    }

    /// Parses the text form, taking the host's offset where the text gives none; see
    /// `from_str_default`.
    pub fn from_str(arg: &str) -> (r: Result<DateTime, Error>)
        ensures
            exists|o: int|
                -MAX_OFFSET <= o <= MAX_OFFSET && parsed_as(
                    r,
                    parse_datetime_spec(arg.spec_bytes(), o),
                ),
    {
        let o = offset_sec();
        DateTime::from_str_default(arg, o)
    }
}

/// Whether the characters of `tok` stand in `f` at position `i`.
pub open spec fn chars_at(f: Seq<char>, i: int, tok: Seq<u8>) -> bool {
    0 <= i && i + tok.len() <= f.len() && f.subrange(i, i + tok.len()) == ascii_text(tok)
}

/// The offset as the template shows it: a sign, then hours and minutes.
pub open spec fn template_offset_bytes(o: int) -> Seq<u8> {
    let a = if o < 0 {
        -o
    } else {
        o
    };
    seq![if o >= 0 { 43u8 } else { 45u8 }] + two_digit_bytes(a / 3600) + seq![58u8]
        + two_digit_bytes(a % 3600 / 60)
}

/// What the template `f` shows at position `i` for the value `v`, and how many of its
/// characters that takes: the field for a token, otherwise the character itself.
pub open spec fn token_text(f: Seq<char>, i: int, v: (crate::date::Date, crate::time_of_day::Time, int)) -> (
    Seq<char>,
    int,
) {
    if chars_at(f, i, tok_nanos()) {
        (ascii_text(seq![46u8] + digits_bytes(v.1.nano as int, 9)), 10)
    } else if chars_at(f, i, tok_micros()) {
        (ascii_text(seq![46u8] + digits_bytes(v.1.nano as int / 1000, 6)), 7)
    } else if chars_at(f, i, tok_offset()) {
        (ascii_text(template_offset_bytes(v.2)), 6)
    } else if chars_at(f, i, tok_year()) {
        (ascii_text(four_digit_bytes(v.0.year as int)), 4)
    } else if chars_at(f, i, tok_mon()) {
        (ascii_text(two_digit_bytes(v.0.mon as int)), 2)
    } else if chars_at(f, i, tok_day()) {
        (ascii_text(two_digit_bytes(v.0.day as int)), 2)
    } else if chars_at(f, i, tok_hour()) {
        (ascii_text(two_digit_bytes(v.1.hour as int)), 2)
    } else if chars_at(f, i, tok_minute()) {
        (ascii_text(two_digit_bytes(v.1.minute as int)), 2)
    } else if chars_at(f, i, tok_sec()) {
        (ascii_text(two_digit_bytes(v.1.sec as int)), 2)
    } else {
        (seq![f[i]], 1)
    }
}

/// The template `f` from position `i` on, each token replaced by its field of `v`.
pub open spec fn format_from(f: Seq<char>, i: int, v: (crate::date::Date, crate::time_of_day::Time, int)) -> Seq<char>
    decreases f.len() - i,
{
    if i < 0 || i >= f.len() {
        seq![]
    } else {
        let (t, k) = token_text(f, i, v);
        if k >= 1 {
            t + format_from(f, i + k, v)
        } else {
            seq![]
        }
    }
}

/// Whether the characters of `tok` stand in `f` at position `i`.
fn chars_match(f: &str, n: usize, i: usize, tok: &[u8]) -> (r: bool)
    requires
        n == f@.len(),
    ensures
        r == chars_at(f@, i as int, tok@),
{
    if i > n || tok.len() > n - i {
        return false;
    }
    let tl = tok.len();
    let mut j: usize = 0;
    while j < tl
        invariant
            j <= tl,
            tl == tok@.len(),
            i + tl <= n,
            n == f@.len(),
            forall|k: int| 0 <= k < j ==> f@[i + k] == tok@[k] as char,
        decreases tl - j,
    {
        if f.get_char(i + j) != tok[j] as char {
            assert(f@.subrange(i as int, i + tl)[j as int] != ascii_text(tok@)[j as int]);
            return false;
        }
        j = j + 1;
    }
    assert(f@.subrange(i as int, i + tl) =~= ascii_text(tok@));
    true
}

impl DateTime {
    /// The template `fmt` with each token replaced by this value's field: `YYYY`, `MM`,
    /// `DD`, `hh`, `mm`, `ss`, `.000000` (microseconds), `.000000000` (nanoseconds) and
    /// `+00:00` (the offset's sign, hours and minutes). Other characters are kept.
    pub fn format(&self, fmt: &str) -> (r: String)
        ensures
            r@ == format_from(fmt@, 0, self@),
    {
        self.valid();
        let d = self.date_part();
        let t = self.time_part();
        let o = self.offset();
        let n = fmt.unicode_len();
        let mut out = String::new();
        let tn: [u8; 10] = [46, 48, 48, 48, 48, 48, 48, 48, 48, 48];
        let tu: [u8; 7] = [46, 48, 48, 48, 48, 48, 48];
        let to: [u8; 6] = [43, 48, 48, 58, 48, 48];
        let ty: [u8; 4] = [89, 89, 89, 89];
        let tm: [u8; 2] = [77, 77];
        let td: [u8; 2] = [68, 68];
        let th: [u8; 2] = [104, 104];
        let tmi: [u8; 2] = [109, 109];
        let ts: [u8; 2] = [115, 115];
        assert(tn@ =~= tok_nanos());
        assert(tu@ =~= tok_micros());
        assert(to@ =~= tok_offset());
        assert(ty@ =~= tok_year());
        assert(tm@ =~= tok_mon());
        assert(td@ =~= tok_day());
        assert(th@ =~= tok_hour());
        assert(tmi@ =~= tok_minute());
        assert(ts@ =~= tok_sec());
        let mut i: usize = 0;
        while i < n
            invariant
                n == fmt@.len(),
                i <= n,
                d == self@.0,
                t == self@.1,
                o == self@.2,
                d.wf(),
                t.wf(),
                -MAX_OFFSET <= o <= MAX_OFFSET,
                tn@ == tok_nanos(),
                tu@ == tok_micros(),
                to@ == tok_offset(),
                ty@ == tok_year(),
                tm@ == tok_mon(),
                td@ == tok_day(),
                th@ == tok_hour(),
                tmi@ == tok_minute(),
                ts@ == tok_sec(),
                out@ + format_from(fmt@, i as int, self@) == format_from(fmt@, 0, self@),
            decreases n - i,
        {
            let ghost before = out@;
            let mut b: Vec<u8> = Vec::new();
            let k: usize;
            if chars_match(fmt, n, i, &tn) {
                b.push(46);
                push_digits(&mut b, t.nano, 9);
                k = 10;
            } else if chars_match(fmt, n, i, &tu) {
                b.push(46);
                push_digits(&mut b, t.nano / 1000, 6);
                k = 7;
            } else if chars_match(fmt, n, i, &to) {
                let a: i32 = if o < 0 {
                    -o
                } else {
                    o
                };
                b.push(if o >= 0 {
                    43
                } else {
                    45
                });
                push_two(&mut b, (a / 3600) as u8);
                b.push(58);
                push_two(&mut b, (a % 3600 / 60) as u8);
                k = 6;
            } else if chars_match(fmt, n, i, &ty) {
                let y = d.year as u16;
                b.push(48 + (y / 1000) as u8);
                b.push(48 + (y / 100 % 10) as u8);
                b.push(48 + (y / 10 % 10) as u8);
                b.push(48 + (y % 10) as u8);
                k = 4;
            } else if chars_match(fmt, n, i, &tm) {
                push_two(&mut b, d.mon);
                k = 2;
            } else if chars_match(fmt, n, i, &td) {
                push_two(&mut b, d.day);
                k = 2;
            } else if chars_match(fmt, n, i, &th) {
                push_two(&mut b, t.hour);
                k = 2;
            } else if chars_match(fmt, n, i, &tmi) {
                push_two(&mut b, t.minute);
                k = 2;
            } else if chars_match(fmt, n, i, &ts) {
                push_two(&mut b, t.sec);
                k = 2;
            } else {
                k = 1;
            }
            if k == 1 {
                out.push(fmt.get_char(i));
            } else {
                push_ascii(&mut out, b.as_slice());
            }
            proof {
                let (tt, kk) = token_text(fmt@, i as int, self@);
                assert(kk == k);
                if k == 4 {
                    assert(b@ =~= four_digit_bytes(d.year as int));
                }
                if k == 1 {
                    assert(tt =~= seq![fmt@[i as int]]);
                } else {
                    assert(tt =~= ascii_text(b@));
                }
                assert(out@ == before + tt);
                assert(format_from(fmt@, i as int, self@) == tt + format_from(fmt@, i + k, self@));
            }
            i = i + k;
        }
        assert(format_from(fmt@, i as int, self@) =~= seq![]);
        assert(out@ =~= format_from(fmt@, 0, self@));
        out
    }
}

impl core::str::FromStr for DateTime {
    type Err = Error;

    fn from_str(s: &str) -> Result<DateTime, Error> {
        DateTime::from_str(s)
    }
}

} // verus!
