//! Decimal text of integers and little-endian bytes of words.
use vstd::prelude::*;

use crate::text::push_char;

verus! {

/// The ASCII digit for `d`.
pub open spec fn digit_spec(d: nat) -> char {
    if d == 0 {
        '0'
    } else if d == 1 {
        '1'
    } else if d == 2 {
        '2'
    } else if d == 3 {
        '3'
    } else if d == 4 {
        '4'
    } else if d == 5 {
        '5'
    } else if d == 6 {
        '6'
    } else if d == 7 {
        '7'
    } else if d == 8 {
        '8'
    } else {
        '9'
    }
}

/// The decimal digits of `n`, most significant first.
pub open spec fn digits(n: nat) -> Seq<char>
    decreases n,
{
    if n < 10 {
        seq![digit_spec(n)]
    } else {
        digits(n / 10) + seq![digit_spec(n % 10)]
    }
}

/// `i64::to_string`: the decimal text of `n`.
pub open spec fn decimal(n: int) -> Seq<char> {
    if n < 0 {
        seq!['-'] + digits((-n) as nat)
    } else {
        digits(n as nat)
    }
}

/// The ASCII digit for `d`.
pub fn digit_char(d: u64) -> (c: char)
    requires
        d < 10,
    ensures
        c == digit_spec(d as nat),
{
    match d {
        0 => '0',
        1 => '1',
        2 => '2',
        3 => '3',
        4 => '4',
        5 => '5',
        6 => '6',
        7 => '7',
        8 => '8',
        _ => '9',
    }
}

/// Appends the decimal digits of `n`.
pub fn push_digits(out: &mut String, n: u64)
    ensures
        final(out)@ == old(out)@ + digits(n as nat),
    decreases n,
{
    if n >= 10 {
        push_digits(out, n / 10);
    }
    push_char(out, digit_char(n % 10));
    proof {
        if n < 10 {
            assert(n % 10 == n);
        }
    }
}

/// Appends the decimal text of `n`.
pub fn push_decimal(out: &mut String, n: i64)
    ensures
        final(out)@ == old(out)@ + decimal(n as int),
{
    if n < 0 {
        push_char(out, '-');
        let magnitude: u64 = (0 - (n as i128)) as u64;
        push_digits(out, magnitude);
    } else {
        push_digits(out, n as u64);
    }
}

/// The decimal text of `n`.
pub fn i64_to_string(n: i64) -> (s: String)
    ensures
        s@ == decimal(n as int),
{
    let mut s = String::new();
    push_decimal(&mut s, n);
    s
}

/// The decimal text of `n`.
pub fn u64_to_string(n: u64) -> (s: String)
    ensures
        s@ == digits(n as nat),
{
    let mut s = String::new();
    push_digits(&mut s, n);
    s
}

/// `u32::to_le_bytes` of `w`.
pub open spec fn le32(w: u32) -> Seq<u8> {
    seq![(w % 256) as u8, ((w / 256) % 256) as u8, ((w / 65536) % 256) as u8, (w / 16777216) as u8]
}

/// `u16::to_le_bytes` of `w`.
pub open spec fn le16(w: u16) -> Seq<u8> {
    seq![(w % 256) as u8, (w / 256) as u8]
}

/// Appends the little-endian bytes of `w`.
pub fn push_le32(out: &mut Vec<u8>, w: u32)
    ensures
        final(out)@ == old(out)@ + le32(w),
{
    let ghost prev = out@;
    out.push((w % 256) as u8);
    out.push(((w / 256) % 256) as u8);
    out.push(((w / 65536) % 256) as u8);
    out.push((w / 16777216) as u8);
    assert(out@ == prev + le32(w));
}

/// Appends the little-endian bytes of `w`.
pub fn push_le16(out: &mut Vec<u8>, w: u16)
    ensures
        final(out)@ == old(out)@ + le16(w),
{
    let ghost prev = out@;
    out.push((w % 256) as u8);
    out.push((w / 256) as u8);
    assert(out@ == prev + le16(w));
}

/// Two's-complement reinterpretation of an `i32`.
pub open spec fn bits32(x: i32) -> u32 {
    if x < 0 {
        (x + 4294967296) as u32
    } else {
        x as u32
    }
}

/// Two's-complement reinterpretation of an `i32` (`x as u32`).
pub fn to_bits32(x: i32) -> (r: u32)
    ensures
        r == bits32(x),
{
    if x < 0 {
        ((x as i64) + 4294967296) as u32
    } else {
        x as u32
    }
}

} // verus!
