//! Driver layer for a chain of cascaded MAX7219 LED controllers.
//!
//! The chips sit behind the `max7219` driver and cannot be read back, so the
//! controller keeps a shadow copy of every row register and works out
//! single LEDs and columns from it.
//!
//! - `controller`: the controller itself, with the contract of each operation
//! - `model`: the shadow buffer and the requests of each operation as plain values
//! - `transport`: the calls into the `max7219` driver and the record of them
//! - `pixel`: the bits of a row
//! - `segments`: the segment patterns of digits and characters
//! - `counter`: what a counter with one decimal place shows on four positions
//! - `error`: what an operation can fail with
//! - `laws`: what holds of the operations taken together

pub mod controller;
pub mod counter;
pub mod error;
pub mod laws;
pub mod model;
pub mod pixel;
pub mod segments;
pub mod transport;

pub use controller::LedControl;
pub use error::{LedControlError, LedControlResult};
