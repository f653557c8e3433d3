//! What a call on the controller can fail with.

use vstd::prelude::*;
use max7219::DataError;

verus! {

/// Why an operation on the controller was refused or did not go through.
#[derive(Debug)]
pub enum LedControlError {
    /// The chip index is not below the number of chips in the chain.
    InvalidAddress,
    /// An argument lies outside its range; the text names the argument.
    ValueError(&'static str),
    /// The transport reported that a register write failed.
    DataError(DataError),
}

pub type LedControlResult = Result<(), LedControlError>;

/// The refusal of a chip index beyond the chain.
pub open spec fn invalid_address() -> LedControlResult {
    Err(LedControlError::InvalidAddress)
}

/// The refusal of an argument outside its range.
pub open spec fn value_error(reason: &'static str) -> LedControlResult {
    Err(LedControlError::ValueError(reason))
}

/// What the controller reports for a given outcome of a transfer.
pub open spec fn reported(outcome: Result<(), DataError>) -> LedControlResult {
    match outcome {
        Ok(_) => Ok(()),
        Err(cause) => Err(LedControlError::DataError(cause)),
    }
}

/// Turns the outcome of a transfer into the controller's own result: success
/// stays success, and a failure is passed on as `DataError` with its cause.
pub fn handle_err(outcome: Result<(), DataError>) -> (result: LedControlResult)
    ensures
        result == reported(outcome),
{
    match outcome {
        Ok(_) => Ok(()),
        Err(cause) => Err(LedControlError::DataError(cause)),
    }
}

} // verus!
