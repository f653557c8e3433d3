//! The chip transport: the `max7219` driver that owns the serial connection,
//! and the record that the controller keeps of what it asked of it.

use vstd::prelude::*;
use max7219::connectors::Connector;
use max7219::{Command, DataError, DecodeMode, MAX7219};

verus! {

/// The driver handle of the `max7219` crate. Nothing of its inside is visible here.
#[verifier::external_type_specification]
#[verifier::external_body]
#[verifier::reject_recursive_types(CONNECTOR)]
pub struct ExMax7219<CONNECTOR>(MAX7219<CONNECTOR>);

/// The failure that the `max7219` crate reports for a transfer that went
/// wrong. It is passed on as it comes.
#[verifier::external_type_specification]
#[verifier::external_body]
pub struct ExDataError(DataError);

/// The registers of the chip, as the `max7219` crate numbers them. The
/// variants and their numbers are read from the crate, not restated here.
#[verifier::external_type_specification]
pub struct ExCommand(Command);

/// The decode modes of the chip, as the `max7219` crate names them. The
/// variants are read from the crate, not restated here.
#[verifier::external_type_specification]
pub struct ExDecodeMode(DecodeMode);

/// The highest number of chips that one chain can hold.
pub const MAX_DEVICES: usize = 8;

/// Number of the register that holds the brightness.
pub const INTENSITY_REGISTER: u8 = 0x0A;

/// Number of the register that holds the scan limit.
pub const SCAN_LIMIT_REGISTER: u8 = 0x0B;

/// Number of the register that switches the chip on and off.
pub const POWER_REGISTER: u8 = 0x0C;

/// What the controller can ask of the transport.
pub enum Request {
    /// Set the decode mode of one chip.
    SetDecodeMode { addr: usize, mode: DecodeMode },
    /// Write one register of one chip.
    WriteRegister { addr: usize, opcode: u8, value: u8 },
}

/// One request together with what the transport answered.
pub struct Transfer {
    pub request: Request,
    pub outcome: Result<(), DataError>,
}

/// Whether the record `after` is the record `before` followed by one
/// transfer for each of `requests`, in that order, of which every one but
/// the last went through.
pub open spec fn extended_by(
    after: Seq<Transfer>,
    before: Seq<Transfer>,
    requests: Seq<Request>,
) -> bool {
    &&& after.len() == before.len() + requests.len()
    &&& forall|i: int| 0 <= i < before.len() ==> after[i] == before[i]
    &&& forall|i: int|
        before.len() <= i < after.len()
            ==> (#[trigger] after[i]).request == requests[i - before.len()]
    &&& forall|i: int| before.len() <= i < after.len() - 1 ==> (#[trigger] after[i]).outcome is Ok
}

/// Calls `MAX7219::write_raw_byte`, which hands one register write for one
/// chip to the connector. Whether the transfer succeeds is up to the
/// connector, so nothing is claimed of the result. The connectors of the
/// crate index a buffer of two bytes per chip and fail beyond it, which is
/// why `addr` must stay below `MAX_DEVICES`.
#[verifier::external_body]
pub(crate) fn write_raw_byte<CONNECTOR: Connector>(
    display: &mut MAX7219<CONNECTOR>,
    addr: usize,
    opcode: u8,
    value: u8,
) -> (outcome: Result<(), DataError>)
    requires
        addr < MAX_DEVICES,
{
    display.write_raw_byte(addr, opcode, value)
}

/// Calls `MAX7219::set_decode_mode`: the driver notes the mode and writes it
/// to the chip's decode register. Nothing is claimed of the result, and
/// `addr` is bounded as for `write_raw_byte`.
#[verifier::external_body]
pub(crate) fn set_decode_mode<CONNECTOR: Connector>(
    display: &mut MAX7219<CONNECTOR>,
    addr: usize,
    mode: DecodeMode,
) -> (outcome: Result<(), DataError>)
    requires
        addr < MAX_DEVICES,
{
    display.set_decode_mode(addr, mode)
}

} // verus!
