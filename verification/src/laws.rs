//! What holds of the operations taken together.

use vstd::prelude::*;
use crate::controller::LedControl;
use crate::counter::{digits_of, place_of, Shown};
use crate::error::LedControlResult;
use crate::model::{
    column_of, row_bit, shadow_cleared, shadow_with_column, shadow_with_led, slot, ROWS,
};
use crate::pixel::{column_bit, led_lit, led_mask, with_led};
use crate::segments::{char_pattern, spec_with_decimal_point, table_index};

verus! {

/// Switching an LED makes it read as it was switched, and leaves every
/// other LED of the row as it was.
pub proof fn lemma_switch_is_local(byte: u8, col: u8, state: bool, other: u8)
    requires
        col <= 7,
        other <= 7,
    ensures
        led_lit(with_led(byte, col, state), col) == state,
        other != col ==> led_lit(with_led(byte, col, state), other) == led_lit(byte, other),
{
    let mask = led_mask(col);
    let apart = led_mask(other);
    assert(col <= 7 ==> led_mask(col) != 0) by (bit_vector);
    assert(col <= 7 && other <= 7 && other != col ==> led_mask(col) & led_mask(other) == 0)
        by (bit_vector);
    assert(mask != 0 ==> (byte | mask) & mask != 0) by (bit_vector);
    assert((byte & !mask) & mask == 0) by (bit_vector);
    assert(mask & apart == 0 ==> (byte | mask) & apart == byte & apart) by (bit_vector);
    assert(mask & apart == 0 ==> (byte & !mask) & apart == byte & apart) by (bit_vector);
}

/// Switching an LED on and then off again leaves the row byte as switching
/// it off alone does; where the LED was off to begin with, that is the byte
/// as it was.
pub proof fn lemma_on_then_off(byte: u8, col: u8)
    requires
        col <= 7,
    ensures
        with_led(with_led(byte, col, true), col, false) == with_led(byte, col, false),
        !led_lit(byte, col) ==> with_led(with_led(byte, col, true), col, false) == byte,
{
    let mask = led_mask(col);
    assert((byte | mask) & !mask == byte & !mask) by (bit_vector);
    assert(byte & mask == 0 ==> byte & !mask == byte) by (bit_vector);
}

/// Switching on an LED that was off and then switching it off again gives
/// back the whole shadow buffer as it was before the two steps.
pub proof fn lemma_led_round_trip(shadow: Seq<u8>, addr: int, row: int, col: u8)
    requires
        0 <= slot(addr, row) < shadow.len(),
        col <= 7,
        !led_lit(shadow[slot(addr, row)], col),
    ensures
        shadow_with_led(shadow_with_led(shadow, addr, row, col, true), addr, row, col, false)
            == shadow,
{
    lemma_on_then_off(shadow[slot(addr, row)], col);
    assert(shadow_with_led(shadow_with_led(shadow, addr, row, col, true), addr, row, col, false)
        =~= shadow);
}

/// A controller on which a dark LED was switched on and then off again
/// holds the shadow buffer that it held before the two calls, whatever the
/// transport answered to either.
pub proof fn lemma_set_led_round_trip<const N: usize, CONNECTOR>(
    before: LedControl<N, CONNECTOR>,
    lit: LedControl<N, CONNECTOR>,
    dark: LedControl<N, CONNECTOR>,
    addr: usize,
    row: u8,
    col: u8,
    first: LedControlResult,
    second: LedControlResult,
)
    requires
        addr < N,
        row <= 7,
        col <= 7,
        !led_lit(before.shadow()[slot(addr as int, row as int)], col),
        lit.wrote(
            &before,
            addr,
            row,
            with_led(before.shadow()[slot(addr as int, row as int)], col, true),
            first,
        ),
        dark.wrote(
            &lit,
            addr,
            row,
            with_led(lit.shadow()[slot(addr as int, row as int)], col, false),
            second,
        ),
    ensures
        dark.shadow() == before.shadow(),
{
    lemma_led_round_trip(before.shadow(), addr as int, row as int, col);
}

/// Setting a column row by row is one LED switched per row: the buffer
/// after `rows + 1` rows is the buffer after `rows` rows with the LED of the
/// next row switched as the column byte asks.
pub proof fn lemma_column_step(
    shadow: Seq<u8>,
    addr: int,
    col: u8,
    value: u8,
    rows: int,
)
    requires
        0 <= addr,
        0 <= rows < ROWS,
        slot(addr, rows) < shadow.len(),
    ensures
        shadow_with_column(shadow, addr, col, value, rows + 1) == shadow_with_led(
            shadow_with_column(shadow, addr, col, value, rows),
            addr,
            rows,
            col,
            column_bit(value, rows as u8),
        ),
{
    assert(shadow_with_column(shadow, addr, col, value, rows + 1) =~= shadow_with_led(
        shadow_with_column(shadow, addr, col, value, rows),
        addr,
        rows,
        col,
        column_bit(value, rows as u8),
    ));
}

/// The eight bits that a column byte asks for, put back in their places,
/// are the byte.
pub proof fn lemma_bits_make_byte(value: u8)
    ensures
        row_bit(column_bit(value, 0), 0)
            | row_bit(column_bit(value, 1), 1)
            | row_bit(column_bit(value, 2), 2)
            | row_bit(column_bit(value, 3), 3)
            | row_bit(column_bit(value, 4), 4)
            | row_bit(column_bit(value, 5), 5)
            | row_bit(column_bit(value, 6), 6)
            | row_bit(column_bit(value, 7), 7) == value,
{
    assert(row_bit(column_bit(value, 0), 0)
        | row_bit(column_bit(value, 1), 1)
        | row_bit(column_bit(value, 2), 2)
        | row_bit(column_bit(value, 3), 3)
        | row_bit(column_bit(value, 4), 4)
        | row_bit(column_bit(value, 5), 5)
        | row_bit(column_bit(value, 6), 6)
        | row_bit(column_bit(value, 7), 7) == value) by (bit_vector);
}

/// A column that was set in all eight rows reads back from the shadow
/// buffer as the byte it was set from, whatever the rows held before.
pub proof fn lemma_column_reads_back(shadow: Seq<u8>, addr: int, col: u8, value: u8)
    requires
        0 <= addr,
        slot(addr, ROWS as int) <= shadow.len(),
        col <= 7,
    ensures
        column_of(shadow_with_column(shadow, addr, col, value, ROWS as int), addr, col) == value,
{
    let after = shadow_with_column(shadow, addr, col, value, ROWS as int);
    assert forall|row: u8| row <= 7 implies led_lit(#[trigger] after[slot(addr, row as int)], col)
        == column_bit(value, row) by {
        lemma_switch_is_local(
            shadow[slot(addr, row as int)],
            col,
            column_bit(value, row),
            col,
        );
    }
    assert(led_lit(after[slot(addr, 0)], col) == column_bit(value, 0u8));
    assert(led_lit(after[slot(addr, 1)], col) == column_bit(value, 1u8));
    assert(led_lit(after[slot(addr, 2)], col) == column_bit(value, 2u8));
    assert(led_lit(after[slot(addr, 3)], col) == column_bit(value, 3u8));
    assert(led_lit(after[slot(addr, 4)], col) == column_bit(value, 4u8));
    assert(led_lit(after[slot(addr, 5)], col) == column_bit(value, 5u8));
    assert(led_lit(after[slot(addr, 6)], col) == column_bit(value, 6u8));
    assert(led_lit(after[slot(addr, 7)], col) == column_bit(value, 7u8));
    lemma_bits_make_byte(value);
}

/// A controller on which a column was set in all eight rows reads that
/// column back from its shadow buffer as the byte that it was set from.
pub proof fn lemma_set_column_reads_back<const N: usize, CONNECTOR>(
    before: LedControl<N, CONNECTOR>,
    after: LedControl<N, CONNECTOR>,
    addr: usize,
    col: u8,
    value: u8,
)
    requires
        addr < N,
        col <= 7,
        after.shadow() == shadow_with_column(
            before.shadow(),
            addr as int,
            col,
            value,
            ROWS as int,
        ),
    ensures
        column_of(after.shadow(), addr as int, col) == value,
{
    lemma_column_reads_back(before.shadow(), addr as int, col, value);
}

/// Setting a column leaves the LEDs of every other column as they were.
pub proof fn lemma_column_keeps_others(
    shadow: Seq<u8>,
    addr: int,
    col: u8,
    value: u8,
    rows: int,
    at: int,
    other: u8,
)
    requires
        0 <= at < shadow.len(),
        col <= 7,
        other <= 7,
        other != col,
    ensures
        led_lit(shadow_with_column(shadow, addr, col, value, rows)[at], other) == led_lit(
            shadow[at],
            other,
        ),
{
    if slot(addr, 0) <= at < slot(addr, rows) {
        lemma_switch_is_local(
            shadow[at],
            col,
            column_bit(value, (at - slot(addr, 0)) as u8),
            other,
        );
    }
}

/// After a chip was blanked in all eight rows, each of its rows is zero in
/// the shadow buffer and the rows of the other chips are as they were.
pub proof fn lemma_cleared_rows(shadow: Seq<u8>, addr: int, at: int)
    requires
        0 <= at < shadow.len(),
    ensures
        shadow_cleared(shadow, addr, ROWS as int)[at] == if slot(addr, 0) <= at < slot(addr + 1, 0) {
            0u8
        } else {
            shadow[at]
        },
{
}

/// A character whose code point lies beyond the table shows exactly as a
/// space does: blank.
pub proof fn lemma_beyond_table_is_space(value: char)
    requires
        value as int > 127,
    ensures
        table_index(value) == table_index(' '),
        char_pattern(table_index(value)) == char_pattern(table_index(' ')),
        char_pattern(table_index(value)) == 0,
        forall|point: bool|
            spec_with_decimal_point(char_pattern(table_index(value)), point)
                == spec_with_decimal_point(char_pattern(table_index(' ')), point),
{
}

/// Below a thousand, a position of the whole part is lit exactly when the
/// count reaches it: the hundreds from 100 on, the tens from 10 on, the
/// ones always, and these carry the decimal point.
pub proof fn lemma_leading_zeros_stay_dark(whole: int)
    requires
        0 < whole < 1000,
    ensures
        place_of(whole, 0) == if whole >= 100 {
            Some(Shown { value: (whole / 100) as usize, point: false })
        } else {
            None
        },
        place_of(whole, 1) == if whole >= 10 {
            Some(Shown { value: (whole / 10 % 10) as usize, point: false })
        } else {
            None
        },
        place_of(whole, 2) == Some(Shown { value: (whole % 10) as usize, point: true }),
{
    let digits = digits_of(whole);
    if whole >= 100 {
        assert(digits[0] != 0);
    }
    if whole >= 10 {
        assert(digits[0] != 0 || digits[1] != 0);
    }
    assert(digits[0] != 0 || digits[1] != 0 || digits[2] != 0);
}

} // verus!
