//! The bits of a row: bit 7 is column 0, bit 0 is column 7.

use vstd::prelude::*;

verus! {

/// The byte with only the LED of column `col` lit, for `col <= 7`.
pub open spec fn led_mask(col: u8) -> u8 {
    0b1000_0000u8 >> col
}

/// Whether the LED of column `col` is lit in `byte`.
pub open spec fn led_lit(byte: u8, col: u8) -> bool {
    byte & led_mask(col) != 0
}

/// `byte` with the LED of column `col` switched on or off.
pub open spec fn with_led(byte: u8, col: u8, state: bool) -> u8 {
    if state {
        byte | led_mask(col)
    } else {
        byte & !led_mask(col)
    }
}

/// Whether a column byte asks for the LED of row `row` to be lit: bit 7 of
/// `value` speaks for row 0, bit 0 for row 7.
pub open spec fn column_bit(value: u8, row: u8) -> bool {
    (value >> (7 - row) as u8) & 1 == 1
}

/// Switches one LED of a row byte and leaves the other seven as they are.
pub fn switch_led(byte: u8, col: u8, state: bool) -> (switched: u8)
    requires
        col <= 7,
    ensures
        switched == with_led(byte, col, state),
{
    let mask: u8 = 0b1000_0000u8 >> col;
    if state {
        byte | mask
    } else {
        byte & !mask
    }
}

/// Reads from a column byte what it asks of one row.
pub fn column_state(value: u8, row: u8) -> (state: bool)
    requires
        row <= 7,
    ensures
        state == column_bit(value, row),
{
    (value >> (7 - row)) & 0x01 == 1
}

} // verus!
