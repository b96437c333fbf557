//! SD card errors.
use vstd::prelude::*;

verus! {

#[derive(Debug, Clone, Copy, PartialEq, Eq, Structural)]
pub enum SdCardError {
    NotInitialized,
    InitializationFailed,
    CommandTimeout,
    CommandError,
    InvalidResponse,
    CrcError,
    ReadError,
    WriteError,
    CardNotSupported,
    SpiError,
    InvalidSector,
    WriteProtected,
    CardNotPresent,
}

pub type SdCardResult<T> = Result<T, SdCardError>;

} // verus!
