//! The display controller: validates every call, keeps the shadow buffer and
//! drives the transport.

use vstd::prelude::*;
use max7219::connectors::Connector;
use max7219::{Command, DecodeMode, MAX7219};
use crate::error::{
    handle_err, invalid_address, reported, value_error, LedControlError, LedControlResult,
};
use crate::model::{
    clear_requests, column_requests, lemma_mirror_after_other, lemma_mirror_after_write, mirrors,
    row_write, shadow_cleared, shadow_with_column, shadow_with_led, slot, ROWS,
};
use crate::pixel::{column_state, switch_led, with_led};
use crate::segments::{
    char_pattern, char_segments, digit_pattern, digit_segments, table_index, with_decimal_point,
};
use crate::transport::{
    extended_by, set_decode_mode, write_raw_byte, Request, Transfer, INTENSITY_REGISTER,
    MAX_DEVICES, POWER_REGISTER, SCAN_LIMIT_REGISTER,
};

verus! {

/// A chain of `N` chips behind one transport, with the last value put into
/// each of their row registers.
///
/// The chips cannot be read, so the shadow buffer is the only place that
/// knows what they show. Every operation checks the chip index first, then
/// its other arguments, and touches neither the shadow buffer nor the
/// transport when it refuses one of them.
#[verifier::reject_recursive_types(CONNECTOR)]
pub struct LedControl<const N: usize, CONNECTOR> {
    /// The driver that reaches the chips.
    display: MAX7219<CONNECTOR>,
    /// The shadow buffer, one block of eight rows per chip.
    status: [[u8; 8]; N],
    /// What was asked of the driver so far, and what it answered.
    record: Ghost<Seq<Transfer>>,
}

impl<const N: usize, CONNECTOR> LedControl<N, CONNECTOR> {
    /// Whether a chain of `N` chips can be driven: it holds at least one
    /// chip and no more than the transport can address.
    pub open spec fn valid_chain() -> bool {
        1 <= N <= MAX_DEVICES
    }

    /// Whether the controller is in order: its chain can be driven, and its
    /// shadow buffer holds for every row the byte that was last handed to
    /// the transport for it. `new` sees to that and every operation keeps it.
    pub open spec fn wf(&self) -> bool {
        &&& Self::valid_chain()
        &&& mirrors(self.shadow(), self.transfers())
    }

    /// The shadow byte of row `row` of chip `addr`.
    pub closed spec fn row(&self, addr: int, row: int) -> u8 {
        self.status[addr][row]
    }

    /// The shadow buffer: `N` blocks of eight rows, chip after chip.
    pub open spec fn shadow(&self) -> Seq<u8> {
        Seq::new((ROWS * N) as nat, |i: int| self.row(i / ROWS as int, i % ROWS as int))
    }

    /// Every transfer asked of the transport since the controller was built,
    /// in order.
    pub closed spec fn transfers(&self) -> Seq<Transfer> {
        self.record@
    }

    /// The transport that the controller holds.
    pub closed spec fn transport(&self) -> MAX7219<CONNECTOR> {
        self.display
    }

    /// Whether this controller came out of `before` by the one request
    /// `request`, with the shadow buffer as it was, and `result` says how
    /// that request went.
    pub open spec fn asked(&self, before: &Self, request: Request, result: LedControlResult) -> bool {
        &&& self.shadow() == before.shadow()
        &&& extended_by(self.transfers(), before.transfers(), seq![request])
        &&& result == reported(self.transfers().last().outcome)
    }

    /// Whether this controller came out of `before` by putting `value` into
    /// row `row` of chip `addr`: the byte stands in the shadow buffer, the
    /// one request that writes it to the chip was made, and `result` says
    /// how that request went.
    pub open spec fn wrote(
        &self,
        before: &Self,
        addr: usize,
        row: u8,
        value: u8,
        result: LedControlResult,
    ) -> bool {
        &&& self.shadow() == before.shadow().update(slot(addr as int, row as int), value)
        &&& extended_by(
            self.transfers(),
            before.transfers(),
            seq![row_write(addr, row as int, value)],
        )
        &&& result == reported(self.transfers().last().outcome)
    }
}

impl<const N: usize, CONNECTOR: Connector> LedControl<N, CONNECTOR> {
    /// Takes over the transport and switches chip 0 to raw segments; whether
    /// that went through is recorded, not reported. The shadow buffer starts
    /// out all zero.
    pub fn new(display: MAX7219<CONNECTOR>) -> (controller: Self)
        requires
            Self::valid_chain(),
        ensures
            controller.wf(),
            controller.shadow() == Seq::new((ROWS * N) as nat, |i: int| 0u8),
            extended_by(
                controller.transfers(),
                Seq::empty(),
                seq![Request::SetDecodeMode { addr: 0, mode: DecodeMode::NoDecode }],
            ),
    {
        let mut display = display;
        let outcome = set_decode_mode(&mut display, 0, DecodeMode::NoDecode);
        let ghost first = seq![
            Transfer {
                request: Request::SetDecodeMode { addr: 0, mode: DecodeMode::NoDecode },
                outcome,
            },
        ];
        let controller = Self { display, status: [[0u8; 8]; N], record: Ghost(first) };
        proof {
            assert(controller.shadow() =~= Seq::new((ROWS * N) as nat, |i: int| 0u8));
            lemma_mirror_after_other(
                controller.shadow(),
                first,
                Seq::empty(),
                Request::SetDecodeMode { addr: 0, mode: DecodeMode::NoDecode },
            );
        }
        controller
    }

    /// Gives the transport back. Nothing is sent to the chips.
    pub fn destroy(self) -> (display: MAX7219<CONNECTOR>)
        ensures
            display == self.transport(),
    {
        self.display
    }

    /// The number of chips in the chain.
    pub fn get_device_count() -> (count: usize)
        ensures
            count == N,
    {
        N
    }

    /// Puts one chip into low-power mode (`state` true) or takes it out of
    /// it: the power register gets 1 or 0.
    pub fn shutdown(&mut self, addr: usize, state: bool) -> (result: LedControlResult)
        requires
            old(self).wf(),
        ensures
            final(self).wf(),
            addr >= N ==> result == invalid_address() && *final(self) == *old(self),
            addr < N ==> final(self).asked(
                old(self),
                Request::WriteRegister {
                    addr,
                    opcode: POWER_REGISTER,
                    value: if state { 1u8 } else { 0u8 },
                },
                result,
            ),
    {
        if addr >= N {
            return Err(LedControlError::InvalidAddress);
        }
        let opcode = Command::Power as u8;
        let value: u8 = if state { 1 } else { 0 };
        let result = self.transmit(addr, opcode, value);
        proof {
            lemma_mirror_after_other(
                self.shadow(),
                self.transfers(),
                old(self).transfers(),
                Request::WriteRegister { addr, opcode, value },
            );
        }
        result
    }

    /// Sets how many rows of one chip are driven, up to all eight.
    pub fn set_scan_limit(&mut self, addr: usize, limit: u8) -> (result: LedControlResult)
        requires
            old(self).wf(),
        ensures
            final(self).wf(),
            addr >= N ==> result == invalid_address(),
            addr < N && limit > 8 ==> result == value_error("limit must be lower or equal than 8"),
            addr >= N || limit > 8 ==> *final(self) == *old(self),
            addr < N && limit <= 8 ==> final(self).asked(
                old(self),
                Request::WriteRegister { addr, opcode: SCAN_LIMIT_REGISTER, value: limit },
                result,
            ),
    {
        if addr >= N {
            return Err(LedControlError::InvalidAddress);
        }
        if limit > 8 {
            return Err(LedControlError::ValueError("limit must be lower or equal than 8"));
        }
        let opcode = Command::ScanLimit as u8;
        let value: u8 = limit;
        let result = self.transmit(addr, opcode, value);
        proof {
            lemma_mirror_after_other(
                self.shadow(),
                self.transfers(),
                old(self).transfers(),
                Request::WriteRegister { addr, opcode, value },
            );
        }
        result
    }

    /// Sets the brightness of one chip, a value of four bits.
    pub fn set_intensity(&mut self, addr: usize, intensity: u8) -> (result: LedControlResult)
        requires
            old(self).wf(),
        ensures
            final(self).wf(),
            addr >= N ==> result == invalid_address(),
            addr < N && intensity >= 16 ==> result == value_error("intensity must be lower than 16"),
            addr >= N || intensity >= 16 ==> *final(self) == *old(self),
            addr < N && intensity < 16 ==> final(self).asked(
                old(self),
                Request::WriteRegister { addr, opcode: INTENSITY_REGISTER, value: intensity },
                result,
            ),
    {
        if addr >= N {
            return Err(LedControlError::InvalidAddress);
        }
        if intensity >= 16 {
            return Err(LedControlError::ValueError("intensity must be lower than 16"));
        }
        let opcode = Command::Intensity as u8;
        let value: u8 = intensity;
        let result = self.transmit(addr, opcode, value);
        proof {
            lemma_mirror_after_other(
                self.shadow(),
                self.transfers(),
                old(self).transfers(),
                Request::WriteRegister { addr, opcode, value },
            );
        }
        result
    }

    /// Blanks the eight rows of one chip, top row first, in the shadow buffer
    /// and on the chip. The first transfer that fails ends the sweep: the
    /// rows reached so far stay blank in the shadow buffer, the others keep
    /// their bytes.
    pub fn clear_display(&mut self, addr: usize) -> (result: LedControlResult)
        requires
            old(self).wf(),
        ensures
            final(self).wf(),
            addr >= N ==> result == invalid_address() && *final(self) == *old(self),
            addr < N ==> {
                let rows = final(self).transfers().len() - old(self).transfers().len();
                &&& 1 <= rows <= 8
                &&& final(self).shadow() == shadow_cleared(old(self).shadow(), addr as int, rows)
                &&& extended_by(
                    final(self).transfers(),
                    old(self).transfers(),
                    clear_requests(addr, rows),
                )
                &&& result == reported(final(self).transfers().last().outcome)
                &&& rows < 8 ==> result is Err
            },
    {
        if addr >= N {
            return Err(LedControlError::InvalidAddress);
        }
        let mut row: u8 = 0;
        while row < 8
            invariant
                self.wf(),
                addr < N,
                row <= 8,
                self.shadow() == shadow_cleared(old(self).shadow(), addr as int, row as int),
                extended_by(
                    self.transfers(),
                    old(self).transfers(),
                    clear_requests(addr, row as int),
                ),
                forall|i: int|
                    old(self).transfers().len() <= i < self.transfers().len()
                        ==> (#[trigger] self.transfers()[i]).outcome is Ok,
            decreases 8 - row,
        {
            let ghost reached = self.transfers();
            let result = self.put(addr, row, 0);
            proof {
                assert(self.shadow() =~= shadow_cleared(old(self).shadow(), addr as int, row + 1));
                assert forall|i: int| 0 <= i < old(self).transfers().len()
                    implies self.transfers()[i] == old(self).transfers()[i] by {
                    assert(reached[i] == old(self).transfers()[i]);
                }
                assert(extended_by(
                    self.transfers(),
                    old(self).transfers(),
                    clear_requests(addr, row + 1),
                ));
            }
            if result.is_err() {
                return result;
            }
            row += 1;
        }
        Ok(())
    }

    /// Switches one LED on or off. The new row byte is worked out from the
    /// shadow buffer, kept there, and written to the chip.
    pub fn set_led(&mut self, addr: usize, row: u8, col: u8, state: bool) -> (result:
        LedControlResult)
        requires
            old(self).wf(),
        ensures
            final(self).wf(),
            addr >= N ==> result == invalid_address(),
            addr < N && row > 7 ==> result == value_error("row must be lower than 8"),
            addr < N && row <= 7 && col > 7 ==> result == value_error("col must be lower than 8"),
            addr >= N || row > 7 || col > 7 ==> *final(self) == *old(self),
            addr < N && row <= 7 && col <= 7 ==> final(self).wrote(
                old(self),
                addr,
                row,
                with_led(old(self).shadow()[slot(addr as int, row as int)], col, state),
                result,
            ),
            addr < N && row <= 7 && col <= 7 ==> final(self).shadow() == shadow_with_led(
                old(self).shadow(),
                addr as int,
                row as int,
                col,
                state,
            ),
    {
        if addr >= N {
            return Err(LedControlError::InvalidAddress);
        }
        if row > 7 {
            return Err(LedControlError::ValueError("row must be lower than 8"));
        }
        if col > 7 {
            return Err(LedControlError::ValueError("col must be lower than 8"));
        }
        let value = switch_led(self.status[addr][row as usize], col, state);
        self.put(addr, row, value)
    }

    /// Sets all eight LEDs of one row at once, and keeps the byte in the
    /// shadow buffer.
    pub fn set_row(&mut self, addr: usize, row: u8, value: u8) -> (result: LedControlResult)
        requires
            old(self).wf(),
        ensures
            final(self).wf(),
            addr >= N ==> result == invalid_address(),
            addr < N && row > 7 ==> result == value_error("row must be lower than 8"),
            addr >= N || row > 7 ==> *final(self) == *old(self),
            addr < N && row <= 7 ==> final(self).wrote(old(self), addr, row, value, result),
    {
        if addr >= N {
            return Err(LedControlError::InvalidAddress);
        }
        if row > 7 {
            return Err(LedControlError::ValueError("row must be lower than 8"));
        }
        self.put(addr, row, value)
    }

    /// Sets the LEDs of one column from the bits of `value`, top row first:
    /// bit 7 of `value` speaks for row 0. Each row is one `set_led`; the
    /// first transfer that fails ends the sweep, and the rows reached so far
    /// keep their new state.
    pub fn set_column(&mut self, addr: usize, col: u8, value: u8) -> (result: LedControlResult)
        requires
            old(self).wf(),
        ensures
            final(self).wf(),
            addr >= N ==> result == invalid_address(),
            addr < N && col > 7 ==> result == value_error("col must be lower than 8"),
            addr >= N || col > 7 ==> *final(self) == *old(self),
            addr < N && col <= 7 ==> {
                let rows = final(self).transfers().len() - old(self).transfers().len();
                &&& 1 <= rows <= 8
                &&& final(self).shadow() == shadow_with_column(
                    old(self).shadow(),
                    addr as int,
                    col,
                    value,
                    rows,
                )
                &&& extended_by(
                    final(self).transfers(),
                    old(self).transfers(),
                    column_requests(old(self).shadow(), addr, col, value, rows),
                )
                &&& result == reported(final(self).transfers().last().outcome)
                &&& rows < 8 ==> result is Err
            },
    {
        if addr >= N {
            return Err(LedControlError::InvalidAddress);
        }
        if col > 7 {
            return Err(LedControlError::ValueError("col must be lower than 8"));
        }
        let mut row: u8 = 0;
        while row < 8
            invariant
                self.wf(),
                addr < N,
                col <= 7,
                row <= 8,
                self.shadow() == shadow_with_column(
                    old(self).shadow(),
                    addr as int,
                    col,
                    value,
                    row as int,
                ),
                extended_by(
                    self.transfers(),
                    old(self).transfers(),
                    column_requests(old(self).shadow(), addr, col, value, row as int),
                ),
                forall|i: int|
                    old(self).transfers().len() <= i < self.transfers().len()
                        ==> (#[trigger] self.transfers()[i]).outcome is Ok,
            decreases 8 - row,
        {
            let ghost reached = self.transfers();
            let result = self.set_led(addr, row, col, column_state(value, row));
            proof {
                assert(self.shadow() =~= shadow_with_column(
                    old(self).shadow(),
                    addr as int,
                    col,
                    value,
                    row + 1,
                ));
                assert forall|i: int| 0 <= i < old(self).transfers().len()
                    implies self.transfers()[i] == old(self).transfers()[i] by {
                    assert(reached[i] == old(self).transfers()[i]);
                }
                assert(extended_by(
                    self.transfers(),
                    old(self).transfers(),
                    column_requests(old(self).shadow(), addr, col, value, row + 1),
                ));
            }
            if result.is_err() {
                return result;
            }
            row += 1;
        }
        Ok(())
    }

    /// Shows a decimal digit on one seven-segment position, with or without
    /// its decimal point.
    pub fn set_digit(&mut self, addr: usize, digit: u8, value: usize, dp: bool) -> (result:
        LedControlResult)
        requires
            old(self).wf(),
        ensures
            final(self).wf(),
            addr >= N ==> result == invalid_address(),
            addr < N && digit > 7 ==> result == value_error("digit must be lower than 8"),
            addr < N && digit <= 7 && value > 9 ==> result == value_error(
                "value must be lower than 10",
            ),
            addr >= N || digit > 7 || value > 9 ==> *final(self) == *old(self),
            addr < N && digit <= 7 && value <= 9 ==> final(self).wrote(
                old(self),
                addr,
                digit,
                with_decimal_point(digit_pattern(value as int), dp),
                result,
            ),
    {
        if addr >= N {
            return Err(LedControlError::InvalidAddress);
        }
        if digit > 7 {
            return Err(LedControlError::ValueError("digit must be lower than 8"));
        }
        if value > 9 {
            return Err(LedControlError::ValueError("value must be lower than 10"));
        }
        let pattern = with_decimal_point(digit_segments(value), dp);
        self.put(addr, digit, pattern)
    }

    /// Shows a character on one seven-segment position, with or without the
    /// decimal point. A character beyond the table shows as a space.
    pub fn set_char(&mut self, addr: usize, digit: u8, value: char, dp: bool) -> (result:
        LedControlResult)
        requires
            old(self).wf(),
        ensures
            final(self).wf(),
            addr >= N ==> result == invalid_address(),
            addr < N && digit > 7 ==> result == value_error("digit must be lower than 8"),
            addr >= N || digit > 7 ==> *final(self) == *old(self),
            addr < N && digit <= 7 ==> final(self).wrote(
                old(self),
                addr,
                digit,
                with_decimal_point(char_pattern(table_index(value)), dp),
                result,
            ),
    {
        if addr >= N {
            return Err(LedControlError::InvalidAddress);
        }
        if digit > 7 {
            return Err(LedControlError::ValueError("digit must be lower than 8"));
        }
        let pattern = with_decimal_point(char_segments(value), dp);
        self.put(addr, digit, pattern)
    }

    /// Reads one row back from the shadow buffer. Nothing is sent.
    pub fn get_row(&self, addr: usize, row: u8) -> (result: Result<u8, LedControlError>)
        ensures
            addr >= N ==> result == Err::<u8, LedControlError>(LedControlError::InvalidAddress),
            addr < N && row > 7 ==> result == Err::<u8, LedControlError>(
                LedControlError::ValueError("row must be lower than 8"),
            ),
            addr < N && row <= 7 ==> result == Ok::<u8, LedControlError>(
                self.shadow()[slot(addr as int, row as int)],
            ),
    {
        if addr >= N {
            return Err(LedControlError::InvalidAddress);
        }
        if row > 7 {
            return Err(LedControlError::ValueError("row must be lower than 8"));
        }
        Ok(self.status[addr][row as usize])
    }

    /// Keeps `value` as row `row` of chip `addr` and writes it to the chip.
    fn put(&mut self, addr: usize, row: u8, value: u8) -> (result: LedControlResult)
        requires
            old(self).wf(),
            addr < N,
            row <= 7,
        ensures
            final(self).wf(),
            final(self).wrote(old(self), addr, row, value, result),
    {
        self.store(addr, row, value);
        let result = self.transmit(addr, row + 1, value);
        proof {
            lemma_mirror_after_write(
                old(self).shadow(),
                self.transfers(),
                old(self).transfers(),
                addr,
                row as int,
                value,
            );
        }
        result
    }

    /// Puts `value` into the shadow buffer.
    fn store(&mut self, addr: usize, row: u8, value: u8)
        requires
            addr < N,
            row < ROWS,
        ensures
            final(self).shadow() == old(self).shadow().update(slot(addr as int, row as int), value),
            final(self).transfers() == old(self).transfers(),
            final(self).transport() == old(self).transport(),
    {
        self.status[addr][row as usize] = value;
        assert(final(self).shadow() =~= old(self).shadow().update(
            slot(addr as int, row as int),
            value,
        ));
    }

    /// Asks the transport for one register write and notes the request with
    /// its outcome. No other function touches the transport of a controller
    /// that is in use.
    fn transmit(&mut self, addr: usize, opcode: u8, value: u8) -> (result: LedControlResult)
        requires
            Self::valid_chain(),
            addr < N,
        ensures
            final(self).asked(old(self), Request::WriteRegister { addr, opcode, value }, result),
    {
        let outcome = write_raw_byte(&mut self.display, addr, opcode, value);
        proof {
            self.record@ = self.record@.push(
                Transfer { request: Request::WriteRegister { addr, opcode, value }, outcome },
            );
            assert(self.shadow() =~= old(self).shadow());
        }
        handle_err(outcome)
    }
}

} // verus!
