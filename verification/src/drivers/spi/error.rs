//! SPI errors.
use vstd::prelude::*;

verus! {

#[derive(Debug, Clone, Copy, PartialEq, Eq, Structural)]
pub enum SpiError {
    NotInitialized,
    TransferTimeout,
    BusError,
    InvalidPin,
    InvalidClockRate,
    DeviceNotFound,
    TransferFailed,
    BufferTooSmall,
}

pub type SpiResult<T> = Result<T, SpiError>;

} // verus!
