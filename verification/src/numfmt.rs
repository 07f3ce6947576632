//! Number formatting for the diagnostic sink and the shell: decimal,
//! hexadecimal, and human-readable sizes. These functions return the text;
//! the serial port and the console print it outside the library.

use vstd::prelude::*;
use crate::text::push_char;

verus! {

/// The decimal digit character for `d`.
pub open spec fn dec_digit(d: int) -> char
    recommends
        0 <= d < 10,
{
    if d == 0 {
        '0'
    } else if d == 1 {
        '1'
    } else if d == 2 {
        '2'
    } else if d == 3 {
        '3'
    } else if d == 4 {
        '4'
    } else if d == 5 {
        '5'
    } else if d == 6 {
        '6'
    } else if d == 7 {
        '7'
    } else if d == 8 {
        '8'
    } else {
        '9'
    }
}

/// The uppercase hexadecimal digit character for `d`.
pub open spec fn hex_digit(d: int) -> char
    recommends
        0 <= d < 16,
{
    if d < 10 {
        dec_digit(d)
    } else if d == 10 {
        'A'
    } else if d == 11 {
        'B'
    } else if d == 12 {
        'C'
    } else if d == 13 {
        'D'
    } else if d == 14 {
        'E'
    } else {
        'F'
    }
}

/// Decimal digits of `v`, most significant first, no leading zeros
/// (`0` itself is the single digit `0`).
pub open spec fn dec_seq(v: int) -> Seq<char>
    recommends
        v >= 0,
    decreases v,
{
    if v < 10 {
        seq![dec_digit(v)]
    } else {
        dec_seq(v / 10).push(dec_digit(v % 10))
    }
}

/// Hexadecimal digits of `v`, most significant first, no leading zeros.
pub open spec fn hex_seq(v: int) -> Seq<char>
    recommends
        v >= 0,
    decreases v,
{
    if v < 16 {
        seq![hex_digit(v)]
    } else {
        hex_seq(v / 16).push(hex_digit(v % 16))
    }
}

/// Exec mirror of [`dec_digit`].
fn dec_digit_char(d: u64) -> (c: char)
    requires
        d < 10,
    ensures
        c == dec_digit(d as int),
{
    match d {
        0 => '0',
        1 => '1',
        2 => '2',
        3 => '3',
        4 => '4',
        5 => '5',
        6 => '6',
        7 => '7',
        8 => '8',
        _ => '9',
    }
}

/// Exec mirror of [`hex_digit`].
fn hex_digit_char(d: u64) -> (c: char)
    requires
        d < 16,
    ensures
        c == hex_digit(d as int),
{
    if d < 10 {
        dec_digit_char(d)
    } else {
        match d {
            10 => 'A',
            11 => 'B',
            12 => 'C',
            13 => 'D',
            14 => 'E',
            _ => 'F',
        }
    }
}

/// Append the decimal digits of `value`.
fn push_decimal(s: &mut String, value: u64)
    ensures
        final(s)@ == old(s)@ + dec_seq(value as int),
    decreases value,
{
    if value < 10 {
        push_char(s, dec_digit_char(value));
    } else {
        push_decimal(s, value / 10);
        push_char(s, dec_digit_char(value % 10));
    }
    proof {
        assert(s@ =~= old(s)@ + dec_seq(value as int));
    }
}

/// Append the hexadecimal digits of `value`.
fn push_hex(s: &mut String, value: u64)
    ensures
        final(s)@ == old(s)@ + hex_seq(value as int),
    decreases value,
{
    if value < 16 {
        push_char(s, hex_digit_char(value));
    } else {
        push_hex(s, value / 16);
        push_char(s, hex_digit_char(value % 16));
    }
    proof {
        assert(s@ =~= old(s)@ + hex_seq(value as int));
    }
}

/// The text of `value` in decimal.
pub fn print_decimal(value: u64) -> (r: String)
    ensures
        r@ == dec_seq(value as int),
{
    let mut s = String::new();
    push_decimal(&mut s, value);
    proof {
        assert(s@ =~= dec_seq(value as int));
    }
    s
}

/// The text of `value` in hexadecimal, with the `0x` prefix.
pub fn print_hex(value: u64) -> (r: String)
    ensures
        r@ == seq!['0', 'x'] + hex_seq(value as int),
{
    let mut s = String::new();
    push_char(&mut s, '0');
    push_char(&mut s, 'x');
    push_hex(&mut s, value);
    proof {
        assert(s@ =~= seq!['0', 'x'] + hex_seq(value as int));
    }
    s
}

/// The human-readable text of a byte count, as the memory reports print it:
/// whole binary units, rounded down.
pub open spec fn size_seq(bytes: int) -> Seq<char> {
    if bytes < 1024 {
        dec_seq(bytes) + seq![' ', 'B']
    } else if bytes < 1024 * 1024 {
        dec_seq(bytes / 1024) + seq![' ', 'K', 'B']
    } else if bytes < 1024 * 1024 * 1024 {
        dec_seq(bytes / (1024int * 1024)) + seq![' ', 'M', 'B']
    } else {
        dec_seq(bytes / (1024int * 1024 * 1024)) + seq![' ', 'G', 'B']
    }
}

/// The text of a byte count in whole binary units.
pub fn print_size(bytes: u64) -> (r: String)
    ensures
        r@ == size_seq(bytes as int),
{
    let mut s = String::new();
    if bytes < 1024 {
        push_decimal(&mut s, bytes);
        push_char(&mut s, ' ');
        push_char(&mut s, 'B');
    } else if bytes < 1024 * 1024 {
        push_decimal(&mut s, bytes / 1024);
        push_char(&mut s, ' ');
        push_char(&mut s, 'K');
        push_char(&mut s, 'B');
    } else if bytes < 1024 * 1024 * 1024 {
        push_decimal(&mut s, bytes / (1024 * 1024));
        push_char(&mut s, ' ');
        push_char(&mut s, 'M');
        push_char(&mut s, 'B');
    } else {
        push_decimal(&mut s, bytes / (1024 * 1024 * 1024));
        push_char(&mut s, ' ');
        push_char(&mut s, 'G');
        push_char(&mut s, 'B');
    }
    proof {
        assert(s@ =~= size_seq(bytes as int));
    }
    s
}

} // verus!
