//! Segment patterns of a seven-segment digit with decimal point.
//!
//! A pattern is one byte. Its low seven bits light the segments A to G
//! (bit 6 is A, bit 0 is G); bit 7 lights the decimal point.

use vstd::prelude::*;

verus! {

/// The bit of a pattern that lights the decimal point.
pub const DECIMAL_POINT: u8 = 0b1000_0000;

/// The code that stands in for every character outside the table: a space.
pub const FALLBACK_CODE: usize = 32;

const NUMBERS: [u8; 10] = [
    0b01111110, 0b00110000, 0b01101101, 0b01111001, 0b00110011,
    0b01011011, 0b01011111, 0b01110000, 0b01111111, 0b01111011,
];

const CHAR_TABLE: [u8; 128] = [
    0b01111110, 0b00110000, 0b01101101, 0b01111001, 0b00110011, 0b01011011, 0b01011111, 0b01110000,
    0b01111111, 0b01111011, 0b01110111, 0b00011111, 0b00001101, 0b00111101, 0b01001111, 0b01000111,
    0b00000000, 0b00000000, 0b00000000, 0b00000000, 0b00000000, 0b00000000, 0b00000000, 0b00000000,
    0b00000000, 0b00000000, 0b00000000, 0b00000000, 0b00000000, 0b00000000, 0b00000000, 0b00000000,
    0b00000000, 0b00000000, 0b00000000, 0b00000000, 0b00000000, 0b00000000, 0b00000000, 0b00000000,
    0b00000000, 0b00000000, 0b00000000, 0b00000000, 0b10000000, 0b00000001, 0b10000000, 0b00000000,
    0b01111110, 0b00110000, 0b01101101, 0b01111001, 0b00110011, 0b01011011, 0b01011111, 0b01110000,
    0b01111111, 0b01111011, 0b00000000, 0b00000000, 0b00000000, 0b00000000, 0b00000000, 0b00000000,
    0b00000000, 0b01110111, 0b00011111, 0b00001101, 0b00111101, 0b01001111, 0b01000111, 0b00000000,
    0b00110111, 0b00000000, 0b00000000, 0b00000000, 0b00001110, 0b00000000, 0b00000000, 0b00000000,
    0b01100111, 0b00000000, 0b00000000, 0b00000000, 0b00000000, 0b00000000, 0b00000000, 0b00000000,
    0b00000000, 0b00000000, 0b00000000, 0b00000000, 0b00000000, 0b00000000, 0b00000000, 0b00001000,
    0b00000000, 0b01110111, 0b00011111, 0b00001101, 0b00111101, 0b01001111, 0b01000111, 0b00000000,
    0b00110111, 0b00000000, 0b00000000, 0b00000000, 0b00001110, 0b00000000, 0b00010101, 0b00011101,
    0b01100111, 0b00000000, 0b00000000, 0b00000000, 0b00000000, 0b00000000, 0b00000000, 0b00000000,
    0b00000000, 0b00000000, 0b00000000, 0b00000000, 0b00000000, 0b00000000, 0b00000000, 0b00000000,
];

/// The segments that show the decimal digit `value`, for `0 <= value <= 9`.
pub open spec fn digit_pattern(value: int) -> u8 {
    seq![
        0b01111110u8, 0b00110000u8, 0b01101101u8, 0b01111001u8, 0b00110011u8,
        0b01011011u8, 0b01011111u8, 0b01110000u8, 0b01111111u8, 0b01111011u8,
    ][value]
}

/// The segments that show the hexadecimal letter number `letter`, counted
/// from `A` (0) to `F` (5): A, b, c, d, E, F.
pub open spec fn hex_letter_pattern(letter: int) -> u8 {
    seq![
        0b01110111u8, 0b00011111u8, 0b00001101u8, 0b00111101u8, 0b01001111u8, 0b01000111u8,
    ][letter]
}

/// The segments that show the character with code `code`, for `0 <= code < 128`.
///
/// The codes 0 to 15 show the hexadecimal digit of that value. Decimal
/// digits, the letters A to F, H, L and P in either case, the small letters
/// n and o, and the signs `,` `-` `.` `_` have a pattern of their own. Every
/// other character is blank.
pub open spec fn char_pattern(code: int) -> u8 {
    if 0 <= code <= 9 {
        digit_pattern(code)
    } else if 10 <= code <= 15 {
        hex_letter_pattern(code - 10)
    } else if '0' as int <= code <= '9' as int {
        digit_pattern(code - '0' as int)
    } else if 'A' as int <= code <= 'F' as int {
        hex_letter_pattern(code - 'A' as int)
    } else if 'a' as int <= code <= 'f' as int {
        hex_letter_pattern(code - 'a' as int)
    } else if code == 'H' as int || code == 'h' as int {
        0b00110111
    } else if code == 'L' as int || code == 'l' as int {
        0b00001110
    } else if code == 'P' as int || code == 'p' as int {
        0b01100111
    } else if code == 'n' as int {
        0b00010101
    } else if code == 'o' as int {
        0b00011101
    } else if code == ',' as int || code == '.' as int {
        0b10000000
    } else if code == '-' as int {
        0b00000001
    } else if code == '_' as int {
        0b00001000
    } else {
        0
    }
}

/// The place of `value` in the character table: its code point, or the
/// code of the space where the code point lies beyond the table.
pub open spec fn table_index(value: char) -> int {
    if value as int > 127 {
        FALLBACK_CODE as int
    } else {
        value as int
    }
}

/// `pattern` with the decimal point lit if `decimal_point` says so.
pub open spec fn spec_with_decimal_point(pattern: u8, decimal_point: bool) -> u8 {
    if decimal_point {
        pattern | DECIMAL_POINT
    } else {
        pattern
    }
}

/// Looks up the segments of a decimal digit.
pub fn digit_segments(value: usize) -> (pattern: u8)
    requires
        value <= 9,
    ensures
        pattern == digit_pattern(value as int),
{
    NUMBERS[value]
}

/// Looks up the segments of a character; one beyond the table reads as a space.
pub fn char_segments(value: char) -> (pattern: u8)
    ensures
        pattern == char_pattern(table_index(value)),
{
    let mut index: usize = value as usize;
    if index > 127 {
        index = FALLBACK_CODE;
    }
    CHAR_TABLE[index]
}

/// Adds the decimal point to a pattern where asked for.
#[verifier::when_used_as_spec(spec_with_decimal_point)]
pub fn with_decimal_point(pattern: u8, decimal_point: bool) -> (lit: u8)
    ensures
        lit == spec_with_decimal_point(pattern, decimal_point),
{
    if decimal_point {
        pattern | DECIMAL_POINT
    } else {
        pattern
    }
}

} // verus!
