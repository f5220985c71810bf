//! Decimal and hexadecimal formatting of small unsigned integers.
use vstd::prelude::*;

verus! {

/// The ASCII character of the decimal digit `d`.
pub open spec fn digit_char(d: nat) -> char {
    ((d + 48) as u8) as char
}

/// The decimal representation of `n`, most significant digit first, without
/// leading zeros (and `"0"` for zero).
pub open spec fn decimal_chars(n: nat) -> Seq<char>
    decreases n,
{
    if n < 10 {
        seq![digit_char(n)]
    } else {
        decimal_chars(n / 10).push(digit_char(n % 10))
    }
}

/// The number that a sequence of ASCII decimal digits denotes.
pub open spec fn decimal_value(s: Seq<char>) -> int
    decreases s.len(),
{
    if s.len() == 0 {
        0
    } else {
        10 * decimal_value(s.drop_last()) + (s.last() as int - 48)
    }
}

/// The ASCII byte of the hexadecimal digit `d` (upper case letters).
pub open spec fn hex_byte(d: int) -> u8 {
    if d < 10 {
        (d + 48) as u8
    } else {
        (d - 10 + 65) as u8
    }
}

/// The two upper-case hexadecimal digits of `b`.
pub open spec fn hex_chars(b: u8) -> Seq<char> {
    seq![hex_byte((b / 16) as int) as char, hex_byte((b % 16) as int) as char]
}

/// The value of an upper-case hexadecimal digit.
pub open spec fn hex_digit_value(c: char) -> int {
    if c as int <= 57 {
        c as int - 48
    } else {
        c as int - 55
    }
}

fn digit(d: u32) -> (c: char)
    requires
        d < 10,
    ensures
        c == digit_char(d as nat),
{
    ((d as u8) + 48) as char
}

/// Appends the decimal representation of `n` to `out`.
fn push_decimal(out: &mut String, n: u32)
    ensures
        final(out)@ == old(out)@ + decimal_chars(n as nat),
    decreases n,
{
    if n < 10 {
        out.push(digit(n));
    } else {
        push_decimal(out, n / 10);
        out.push(digit(n % 10));
        assert(decimal_chars(n as nat) == decimal_chars((n / 10) as nat).push(digit_char((n % 10) as nat)));
    }
}

/// Formats a `u32` as a decimal string.
pub fn fmt_u32(n: u32) -> (r: String)
    ensures
        r@ == decimal_chars(n as nat),
{
    let mut out = String::new();
    push_decimal(&mut out, n);
    out
}

/// Formats a byte as two upper-case hexadecimal digits.
pub fn fmt_u8_as_hex(b: u8) -> (r: String)
    ensures
        r@ == hex_chars(b),
{
    let mut out = String::new();
    append_u8_as_hex(&mut out, b);
    out
}

/// Appends the two upper-case hexadecimal digits of `b` to `output`.
pub fn append_u8_as_hex(output: &mut String, b: u8)
    ensures
        final(output)@ == old(output)@ + hex_chars(b),
{
    assert(b >> 4 == b / 16 && b & 0x0F == b % 16) by (bit_vector);
    let hi = digit_to_hex_ascii(b >> 4);
    let lo = digit_to_hex_ascii(b & 0x0F);
    output.push(hi as char);
    output.push(lo as char);
}

/// The ASCII byte of the hexadecimal digit `digit`, which must be below 16.
pub fn digit_to_hex_ascii(digit: u8) -> (r: u8)
    requires
        digit < 16,
    ensures
        r == hex_byte(digit as int),
{
    if digit <= 9 {
        digit + 48u8
    } else {
        digit - 10 + 65u8
    }
}

/// The decimal digits of `n` denote `n`, and only zero is written with a leading `0`.
pub proof fn lemma_decimal_roundtrip(n: nat)
    ensures
        decimal_value(decimal_chars(n)) == n,
        decimal_chars(n).len() > 0,
        decimal_chars(n)[0] == '0' ==> n == 0,
        forall|i: int| 0 <= i < decimal_chars(n).len() ==> 48 <= #[trigger] decimal_chars(n)[i] as int <= 57,
    decreases n,
{
    if n >= 10 {
        lemma_decimal_roundtrip(n / 10);
        let s = decimal_chars(n);
        assert(s.drop_last() == decimal_chars(n / 10));
        assert forall|i: int| 0 <= i < s.len() implies 48 <= #[trigger] s[i] as int <= 57 by {
            if i < s.len() - 1 {
                assert(s[i] == decimal_chars(n / 10)[i]);
            }
        }
        assert(s[0] == decimal_chars(n / 10)[0]);
        assert(s.last() as int == (n % 10) + 48);
        assert(decimal_value(s) == 10 * decimal_value(s.drop_last()) + (s.last() as int - 48));
    } else {
        let s = decimal_chars(n);
        assert(s.drop_last() =~= Seq::<char>::empty());
        assert(decimal_value(s.drop_last()) == 0);
        assert(s.last() as int == n + 48);
    }
}

/// The two hexadecimal digits of `b` denote `b`.
pub proof fn lemma_hex_roundtrip(b: u8)
    ensures
        16 * hex_digit_value(hex_chars(b)[0]) + hex_digit_value(hex_chars(b)[1]) == b,
{
}

} // verus!
