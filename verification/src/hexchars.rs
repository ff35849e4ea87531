//! Hexadecimal digits and printable-ASCII display characters.

use vstd::prelude::*;

verus! {

/// A character is a hexadecimal digit: `0-9`, `a-f` or `A-F`.
pub open spec fn is_hex_digit(c: char) -> bool {
    ('0' <= c && c <= '9') || ('a' <= c && c <= 'f') || ('A' <= c && c <= 'F')
}

/// Numeric value of a hexadecimal digit, in `0..16`.
pub open spec fn hex_digit_value(c: char) -> u8
    recommends
        is_hex_digit(c),
{
    if '0' <= c && c <= '9' {
        (c as u8 - '0' as u8) as u8
    } else if 'a' <= c && c <= 'f' {
        (c as u8 - 'a' as u8 + 10) as u8
    } else {
        (c as u8 - 'A' as u8 + 10) as u8
    }
}

/// Parses one character as a hexadecimal digit.
pub fn hex_digit_of_char(c: char) -> (r: Option<u8>)
    ensures
        r is Some <==> is_hex_digit(c),
        r is Some ==> r->0 == hex_digit_value(c) && r->0 < 16,
{
    if '0' <= c && c <= '9' {
        Some(c as u8 - '0' as u8)
    } else if 'a' <= c && c <= 'f' {
        Some(c as u8 - 'a' as u8 + 10)
    } else if 'A' <= c && c <= 'F' {
        Some(c as u8 - 'A' as u8 + 10)
    } else {
        None
    }
}

/// Upper-case hexadecimal character of a nibble value, in `0..16`.
pub open spec fn hex_char_of_nibble(v: u8) -> char
    recommends
        v < 16,
{
    if v < 10 {
        (('0' as u8 + v) as u8) as char
    } else {
        (('A' as u8 + v - 10) as u8) as char
    }
}

/// Renders one nibble value as an upper-case hexadecimal character.
pub fn nibble_to_hex_char(v: u8) -> (c: char)
    requires
        v < 16,
    ensures
        c == hex_char_of_nibble(v),
{
    if v < 10 {
        ('0' as u8 + v) as char
    } else {
        ('A' as u8 + v - 10) as char
    }
}

/// Rendering a nibble and reading the character back returns the nibble:
/// `hex_char_of_nibble` is a right inverse of `hex_digit_value`.
pub proof fn lemma_hex_char_round_trip(v: u8)
    requires
        v < 16,
    ensures
        is_hex_digit(hex_char_of_nibble(v)),
        hex_digit_value(hex_char_of_nibble(v)) == v,
{
}

/// The character a byte shows in the text column: itself when printable
/// ASCII, a dot otherwise.
pub open spec fn display_char(b: u8) -> char {
    if 32 <= b && b <= 126 {
        b as char
    } else {
        '.'
    }
}

/// Returns the display character of a byte.
pub fn byte_display_char(b: u8) -> (c: char)
    ensures
        c == display_char(b),
{
    if 32 <= b && b <= 126 {
        b as char
    } else {
        '.'
    }
}

} // verus!
