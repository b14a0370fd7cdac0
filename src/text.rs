//! Digit-level helpers shared by the parsers and formatters.
use vstd::prelude::*;

verus! {

pub open spec fn is_digit(b: u8) -> bool {
    48 <= b <= 57
}

/// Value of the decimal digit byte `b`.
pub open spec fn dval(b: u8) -> int {
    b - 48
}

/// Whether `s` holds decimal digits at positions `i` to `i + k - 1`.
pub open spec fn digits_at(s: Seq<u8>, i: int, k: int) -> bool {
    0 <= i && i + k <= s.len() && forall|j: int| i <= j < i + k ==> is_digit(#[trigger] s[j])
}

/// Value of the `k` decimal digits of `s` that start at position `i`.
pub open spec fn digits_value(s: Seq<u8>, i: int, k: nat) -> int
    decreases k,
{
    if k == 0 {
        0
    } else {
        digits_value(s, i, (k - 1) as nat) * 10 + dval(s[i + k - 1])
    }
}

pub open spec fn pow10(k: nat) -> int
    decreases k,
{
    if k == 0 {
        1
    } else {
        10 * pow10((k - 1) as nat)
    }
}

/// Number of consecutive digits of `s` from position `i`, counting at most `cap`.
pub open spec fn digit_run(s: Seq<u8>, i: int, cap: nat) -> nat
    decreases cap,
{
    if cap == 0 {
        0
    } else if 0 <= i < s.len() && is_digit(s[i]) {
        1 + digit_run(s, i + 1, (cap - 1) as nat)
    } else {
        0
    }
}

/// The byte of the decimal digit `d` (0 to 9).
pub open spec fn digit_byte(d: int) -> u8 {
    (d + 48) as u8
}

/// The two-digit rendering of `v` (0 to 99).
pub open spec fn two_digit_bytes(v: int) -> Seq<u8> {
    seq![digit_byte(v / 10), digit_byte(v % 10)]
}

/// The four-digit rendering of `v` (0 to 9999).
pub open spec fn four_digit_bytes(v: int) -> Seq<u8> {
    seq![digit_byte(v / 1000), digit_byte(v / 100 % 10), digit_byte(v / 10 % 10), digit_byte(v % 10)]
}

/// The `k` last decimal digits of `v`, most significant first.
pub open spec fn digits_bytes(v: int, k: nat) -> Seq<u8>
    decreases k,
{
    if k == 0 {
        Seq::empty()
    } else {
        digits_bytes(v / 10, (k - 1) as nat).push(digit_byte(v % 10))
    }
}

/// Text made of ASCII bytes, one character for each byte.
pub open spec fn ascii_text(b: Seq<u8>) -> Seq<char> {
    b.map_values(|x: u8| x as char)
}

/// The value of the digit at position `i`, if there is one.
pub fn digit_at(s: &[u8], i: usize) -> (r: Option<u8>)
    ensures
        r == (if i < s@.len() && is_digit(s@[i as int]) {
            Some((s@[i as int] - 48) as u8)
        } else {
            None::<u8>
        }),
{
    if i < s.len() && s[i] >= 48 && s[i] <= 57 {
        Some(s[i] - 48)
    } else {
        None
    }
}

pub proof fn lemma_digits_value_bound(s: Seq<u8>, i: int, k: nat)
    requires
        digits_at(s, i, k as int),
    ensures
        0 <= digits_value(s, i, k) < pow10(k),
    decreases k,
{
    if k > 0 {
        assert(is_digit(s[i + k - 1]));
        lemma_digits_value_bound(s, i, (k - 1) as nat);
    }
}

pub proof fn lemma_pow10_mono(a: nat, b: nat)
    requires
        a <= b,
    ensures
        1 <= pow10(a) <= pow10(b),
    decreases b,
{
    if a < b {
        lemma_pow10_mono(a, (b - 1) as nat);
    } else if a > 0 {
        lemma_pow10_mono((a - 1) as nat, (a - 1) as nat);
    }
}

pub proof fn lemma_pow10_values()
    ensures
        pow10(0) == 1,
        pow10(1) == 10,
        pow10(2) == 100,
        pow10(3) == 1000,
        pow10(4) == 10000,
        pow10(5) == 100000,
        pow10(6) == 1000000,
        pow10(7) == 10000000,
        pow10(8) == 100000000,
        pow10(9) == 1000000000,
{
    reveal_with_fuel(pow10, 10);
}

/// Appends the two digits of `x` (0 to 99).
pub fn push_two(v: &mut Vec<u8>, x: u8)
    requires
        x <= 99,
    ensures
        final(v)@ == old(v)@ + two_digit_bytes(x as int),
{
    v.push(48 + x / 10);
    v.push(48 + x % 10);
    assert(final(v)@ =~= old(v)@ + two_digit_bytes(x as int));
}

/// Appends the `k` last decimal digits of `x`, most significant first.
pub fn push_digits(v: &mut Vec<u8>, x: u32, k: usize)
    ensures
        final(v)@ == old(v)@ + digits_bytes(x as int, k as nat),
    decreases k,
{
    if k > 0 {
        push_digits(v, x / 10, k - 1);
        v.push(48 + (x % 10) as u8);
        assert(final(v)@ =~= old(v)@ + digits_bytes(x as int, k as nat));
    } else {
        assert(final(v)@ =~= old(v)@ + digits_bytes(x as int, k as nat));
    }
}

/// Appends bytes to a text, one character each.
pub fn push_ascii(out: &mut String, b: &[u8])
    ensures
        final(out)@ == old(out)@ + ascii_text(b@),
{
    let mut i: usize = 0;
    while i < b.len()
        invariant
            i <= b@.len(),
            out@ == old(out)@ + ascii_text(b@.subrange(0, i as int)),
        decreases b@.len() - i,
    {
        out.push(b[i] as char);
        proof {
            assert(b@.subrange(0, i + 1) == b@.subrange(0, i as int).push(b@[i as int]));
            assert(ascii_text(b@.subrange(0, i + 1)) == ascii_text(b@.subrange(0, i as int)).push(
                b@[i as int] as char,
            ));
        }
        i = i + 1;
    }
    assert(b@.subrange(0, b@.len() as int) == b@);
}

/// Relies on `String::push`: the character is appended at the end.
pub assume_specification[ String::push ](s: &mut String, ch: char)
    ensures
        final(s)@ == old(s)@.push(ch),
;

} // verus!
