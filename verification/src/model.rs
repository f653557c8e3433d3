//! The shadow buffer and the requests of each operation, as plain values.
//!
//! The shadow buffer of a chain of `N` chips is a sequence of `8 * N` bytes:
//! the eight rows of chip 0, then those of chip 1, and so on.

use vstd::prelude::*;
use crate::pixel::{column_bit, led_lit, with_led};
use crate::transport::{extended_by, Request, Transfer};

verus! {

/// Rows of one chip.
pub const ROWS: usize = 8;

/// The place of row `row` of chip `addr` in the shadow buffer.
pub open spec fn slot(addr: int, row: int) -> int {
    ROWS as int * addr + row
}

/// The request that sets row (or digit) `row` of chip `addr` to `value`: the
/// row registers are numbered from 1.
pub open spec fn row_write(addr: usize, row: int, value: u8) -> Request {
    Request::WriteRegister { addr, opcode: (row + 1) as u8, value }
}

/// The shadow buffer after one LED of it was switched.
pub open spec fn shadow_with_led(
    shadow: Seq<u8>,
    addr: int,
    row: int,
    col: u8,
    state: bool,
) -> Seq<u8> {
    shadow.update(slot(addr, row), with_led(shadow[slot(addr, row)], col, state))
}

/// The shadow buffer after the first `rows` rows of chip `addr` were blanked.
pub open spec fn shadow_cleared(shadow: Seq<u8>, addr: int, rows: int) -> Seq<u8> {
    Seq::new(
        shadow.len(),
        |i: int|
            if slot(addr, 0) <= i < slot(addr, rows) {
                0u8
            } else {
                shadow[i]
            },
    )
}

/// The requests that blank the first `rows` rows of chip `addr`, top row first.
pub open spec fn clear_requests(addr: usize, rows: int) -> Seq<Request> {
    Seq::new(rows as nat, |row: int| row_write(addr, row, 0))
}

/// The shadow buffer after the LEDs of column `col` were set from `value` in
/// the first `rows` rows of chip `addr`.
pub open spec fn shadow_with_column(
    shadow: Seq<u8>,
    addr: int,
    col: u8,
    value: u8,
    rows: int,
) -> Seq<u8> {
    Seq::new(
        shadow.len(),
        |i: int|
            if slot(addr, 0) <= i < slot(addr, rows) {
                with_led(shadow[i], col, column_bit(value, (i - slot(addr, 0)) as u8))
            } else {
                shadow[i]
            },
    )
}

/// The requests that set column `col` from `value` in the first `rows` rows
/// of chip `addr`, top row first, starting from the shadow buffer `shadow`.
pub open spec fn column_requests(
    shadow: Seq<u8>,
    addr: usize,
    col: u8,
    value: u8,
    rows: int,
) -> Seq<Request> {
    Seq::new(
        rows as nat,
        |row: int|
            row_write(
                addr,
                row,
                with_led(shadow[slot(addr as int, row)], col, column_bit(value, row as u8)),
            ),
    )
}

/// The bit that row `row` contributes to a column byte when its LED is lit:
/// the reverse of `column_bit`.
pub open spec fn row_bit(lit: bool, row: u8) -> u8 {
    if lit {
        1u8 << (7 - row) as u8
    } else {
        0
    }
}

/// Column `col` of chip `addr` read back from the shadow buffer as one byte,
/// row 0 in bit 7.
pub open spec fn column_of(shadow: Seq<u8>, addr: int, col: u8) -> u8 {
    row_bit(led_lit(shadow[slot(addr, 0)], col), 0)
        | row_bit(led_lit(shadow[slot(addr, 1)], col), 1)
        | row_bit(led_lit(shadow[slot(addr, 2)], col), 2)
        | row_bit(led_lit(shadow[slot(addr, 3)], col), 3)
        | row_bit(led_lit(shadow[slot(addr, 4)], col), 4)
        | row_bit(led_lit(shadow[slot(addr, 5)], col), 5)
        | row_bit(led_lit(shadow[slot(addr, 6)], col), 6)
        | row_bit(led_lit(shadow[slot(addr, 7)], col), 7)
}

/// The byte that a request puts into row `row` of chip `addr`, if it is a
/// write to that row's register.
pub open spec fn row_value(request: Request, addr: usize, row: int) -> Option<u8> {
    match request {
        Request::WriteRegister { addr: chip, opcode, value } => {
            if chip == addr && opcode == row + 1 {
                Some(value)
            } else {
                None
            }
        },
        Request::SetDecodeMode { .. } => None,
    }
}

/// The byte that was last handed to the transport for row `row` of chip
/// `addr`, whether or not the transfer went through; zero where the row was
/// never written.
pub open spec fn last_written(transfers: Seq<Transfer>, addr: usize, row: int) -> u8
    decreases transfers.len(),
{
    if transfers.len() == 0 {
        0
    } else {
        match row_value(transfers.last().request, addr, row) {
            Some(value) => value,
            None => last_written(transfers.drop_last(), addr, row),
        }
    }
}

/// Whether the shadow buffer mirrors the record: each of its rows holds the
/// byte that was last handed to the transport for that row.
pub open spec fn mirrors(shadow: Seq<u8>, transfers: Seq<Transfer>) -> bool {
    forall|addr: usize, row: int|
        0 <= row < ROWS && 0 <= slot(addr as int, row) < shadow.len()
            ==> shadow[slot(addr as int, row)] == #[trigger] last_written(transfers, addr, row)
}

/// One more request changes what was last written to a row only if it
/// writes that row.
pub proof fn lemma_last_written_step(
    after: Seq<Transfer>,
    before: Seq<Transfer>,
    request: Request,
    addr: usize,
    row: int,
)
    requires
        extended_by(after, before, seq![request]),
    ensures
        last_written(after, addr, row) == match row_value(request, addr, row) {
            Some(value) => value,
            None => last_written(before, addr, row),
        },
{
    assert(after.drop_last() =~= before);
    assert(after.last().request == seq![request][0]);
}

/// A shadow buffer that mirrors the record still does so after a row was
/// put into it and the request that writes that row was made.
pub proof fn lemma_mirror_after_write(
    shadow: Seq<u8>,
    after: Seq<Transfer>,
    before: Seq<Transfer>,
    addr: usize,
    row: int,
    value: u8,
)
    requires
        mirrors(shadow, before),
        0 <= row < ROWS,
        0 <= slot(addr as int, row) < shadow.len(),
        extended_by(after, before, seq![row_write(addr, row, value)]),
    ensures
        mirrors(shadow.update(slot(addr as int, row), value), after),
{
    let request = row_write(addr, row, value);
    let updated = shadow.update(slot(addr as int, row), value);
    assert forall|chip: usize, line: int|
        0 <= line < ROWS && 0 <= slot(chip as int, line) < updated.len()
        implies updated[slot(chip as int, line)] == #[trigger] last_written(after, chip, line) by {
        lemma_last_written_step(after, before, request, chip, line);
        assert(shadow[slot(chip as int, line)] == last_written(before, chip, line));
    }
}

/// A shadow buffer that mirrors the record still does so after a request
/// that writes no row.
pub proof fn lemma_mirror_after_other(
    shadow: Seq<u8>,
    after: Seq<Transfer>,
    before: Seq<Transfer>,
    request: Request,
)
    requires
        mirrors(shadow, before),
        extended_by(after, before, seq![request]),
        forall|addr: usize, row: int| 0 <= row < ROWS ==> row_value(request, addr, row) is None,
    ensures
        mirrors(shadow, after),
{
    assert forall|chip: usize, line: int|
        0 <= line < ROWS && 0 <= slot(chip as int, line) < shadow.len()
        implies shadow[slot(chip as int, line)] == #[trigger] last_written(after, chip, line) by {
        lemma_last_written_step(after, before, request, chip, line);
        assert(shadow[slot(chip as int, line)] == last_written(before, chip, line));
    }
}

} // verus!
