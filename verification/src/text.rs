//! Building strings: the decimal and hexadecimal renderings of integers, and the
//! appending of text.

use vstd::prelude::*;
use vstd::utf8::{decode_utf8, valid_utf8};

verus! {

/// The ASCII character of the digit `d` (`0`–`9`, then `a`–`f`).
pub open spec fn digit_char(d: int) -> char {
    if d < 10 {
        (48 + d) as char
    } else {
        (87 + d) as char
    }
}

/// The decimal rendering of `v`, without leading zeros.
pub open spec fn decimal(v: nat) -> Seq<char>
    decreases v,
{
    if v < 10 {
        seq![digit_char(v as int)]
    } else {
        decimal(v / 10).push(digit_char((v % 10) as int))
    }
}

/// The ASCII character of the digit `d` (`0`–`9`, then `A`–`F`).
pub open spec fn upper_digit_char(d: int) -> char {
    if d < 10 {
        (48 + d) as char
    } else {
        (55 + d) as char
    }
}

/// The uppercase hexadecimal rendering of `v`, without leading zeros.
pub open spec fn hex_upper(v: nat) -> Seq<char>
    decreases v,
{
    if v < 16 {
        seq![upper_digit_char(v as int)]
    } else {
        hex_upper(v / 16).push(upper_digit_char((v % 16) as int))
    }
}

/// The lowercase hexadecimal rendering of `v`, without leading zeros.
pub open spec fn hex(v: nat) -> Seq<char>
    decreases v,
{
    if v < 16 {
        seq![digit_char(v as int)]
    } else {
        hex(v / 16).push(digit_char((v % 16) as int))
    }
}

/// The `i`-th of the eight lowercase hexadecimal digits of `v`, most significant first.
pub open spec fn hex8_digit(v: u32, i: int) -> char {
    digit_char(((v >> ((28 - 4 * i) as u32)) & 15u32) as int)
}

/// The eight lowercase hexadecimal digits of `v`, most significant first (the
/// rendering `{:08x}`).
pub open spec fn hex8(v: u32) -> Seq<char> {
    Seq::new(8, |i: int| hex8_digit(v, i))
}

/// `String::push`: appends one character.
#[verifier::external_body]
pub(crate) fn push_char(s: &mut String, c: char)
    ensures
        final(s)@ == old(s)@.push(c),
{
    s.push(c);
}

/// `String::push_str`: appends `t`.
#[verifier::external_body]
pub(crate) fn push_str(s: &mut String, t: &str)
    ensures
        final(s)@ == old(s)@ + t@,
{
    s.push_str(t);
}

/// `String::from_utf8`: the text whose UTF-8 encoding the bytes are, or `None` where
/// they are not valid UTF-8, as its documentation states.
#[verifier::external_body]
pub(crate) fn string_from_utf8(bytes: Vec<u8>) -> (r: Option<String>)
    ensures
        match r {
            Some(s) => valid_utf8(bytes@) && s@ == decode_utf8(bytes@),
            None => !valid_utf8(bytes@),
        },
{
    String::from_utf8(bytes).ok()
}

fn digit(d: u8) -> (c: char)
    requires
        d < 16,
    ensures
        c == digit_char(d as int),
{
    if d < 10 {
        (48 + d) as char
    } else {
        (87 + d) as char
    }
}

/// Appends the decimal rendering of `v`.
pub fn push_decimal(s: &mut String, v: u64)
    ensures
        final(s)@ == old(s)@ + decimal(v as nat),
    decreases v,
{
    if v < 10 {
        push_char(s, digit(v as u8));
        assert(decimal(v as nat) =~= seq![digit_char(v as int)]);
    } else {
        push_decimal(s, v / 10);
        push_char(s, digit((v % 10) as u8));
        assert(old(s)@ + decimal(v as nat) =~= old(s)@ + decimal((v / 10) as nat) + seq![
            digit_char((v % 10) as int),
        ]);
    }
}

/// Appends the lowercase hexadecimal rendering of `v`.
pub fn push_hex(s: &mut String, v: u64)
    ensures
        final(s)@ == old(s)@ + hex(v as nat),
    decreases v,
{
    if v < 16 {
        push_char(s, digit(v as u8));
        assert(hex(v as nat) =~= seq![digit_char(v as int)]);
    } else {
        push_hex(s, v / 16);
        push_char(s, digit((v % 16) as u8));
        assert(old(s)@ + hex(v as nat) =~= old(s)@ + hex((v / 16) as nat) + seq![
            digit_char((v % 16) as int),
        ]);
    }
}

fn upper_digit(d: u8) -> (c: char)
    requires
        d < 16,
    ensures
        c == upper_digit_char(d as int),
{
    if d < 10 {
        (48 + d) as char
    } else {
        (55 + d) as char
    }
}

/// Appends the uppercase hexadecimal rendering of `v`.
pub fn push_hex_upper(s: &mut String, v: u64)
    ensures
        final(s)@ == old(s)@ + hex_upper(v as nat),
    decreases v,
{
    if v < 16 {
        push_char(s, upper_digit(v as u8));
        assert(hex_upper(v as nat) =~= seq![upper_digit_char(v as int)]);
    } else {
        push_hex_upper(s, v / 16);
        push_char(s, upper_digit((v % 16) as u8));
        assert(old(s)@ + hex_upper(v as nat) =~= old(s)@ + hex_upper((v / 16) as nat) + seq![
            upper_digit_char((v % 16) as int),
        ]);
    }
}

/// Appends the eight lowercase hexadecimal digits of `v`.
pub fn push_hex8(s: &mut String, v: u32)
    ensures
        final(s)@ == old(s)@ + hex8(v),
{
    let mut i: u32 = 0;
    while i < 8
        invariant
            i <= 8,
            s@ == old(s)@ + hex8(v).subrange(0, i as int),
        decreases 8 - i,
    {
        let shift: u32 = 28 - 4 * i;
        let d = (v >> shift) & 15u32;
        assert(d < 16) by (bit_vector)
            requires
                d == (v >> shift) & 15u32,
        ;
        push_char(s, digit(d as u8));
        assert(hex8(v)[i as int] == digit_char(d as int));
        i = i + 1;
        assert(s@ =~= old(s)@ + hex8(v).subrange(0, i as int));
    }
    assert(hex8(v).subrange(0, 8) =~= hex8(v));
}

} // verus!
