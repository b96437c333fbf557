//! VirtIO disk errors.
use vstd::prelude::*;

verus! {

/// Errors of VirtIO disk operations.
#[derive(Debug, Clone, Copy, PartialEq, Eq, Structural)]
pub enum DiskError {
    NotFound,
    InvalidSector,
    BufferTooSmall,
    ReadError,
    WriteError,
    DeviceNotFound,
    NotInitialized,
    VirtIOError,
    InvalidParameter,
    QueueFull,
    IoError,
    InvalidDescriptor,
    DeviceNotReady,
}

/// Result of a VirtIO disk operation.
pub type DiskResult<T> = Result<T, DiskError>;

/// The text of each disk error.
pub open spec fn disk_error_text(e: DiskError) -> Seq<char> {
    match e {
        DiskError::NotFound => "Disk not found"@,
        DiskError::InvalidSector => "Invalid sector number"@,
        DiskError::BufferTooSmall => "Buffer too small"@,
        DiskError::ReadError => "Disk read error"@,
        DiskError::WriteError => "Disk write error"@,
        DiskError::DeviceNotFound => "Disk device not found"@,
        DiskError::NotInitialized => "Disk not initialized"@,
        DiskError::VirtIOError => "VirtIO error"@,
        DiskError::IoError => "I/O error"@,
        DiskError::QueueFull => "VirtIO queue full"@,
        DiskError::InvalidDescriptor => "Invalid descriptor"@,
        DiskError::DeviceNotReady => "Device not ready"@,
        DiskError::InvalidParameter => "Invalid parameter"@,
    }
}

impl DiskError {
    /// The human-readable description of the error.
    pub fn message(&self) -> (s: &'static str)
        ensures
            s@ == disk_error_text(*self),
    {
        match self {
            DiskError::NotFound => "Disk not found",
            DiskError::InvalidSector => "Invalid sector number",
            DiskError::BufferTooSmall => "Buffer too small",
            DiskError::ReadError => "Disk read error",
            DiskError::WriteError => "Disk write error",
            DiskError::DeviceNotFound => "Disk device not found",
            DiskError::NotInitialized => "Disk not initialized",
            DiskError::VirtIOError => "VirtIO error",
            DiskError::IoError => "I/O error",
            DiskError::QueueFull => "VirtIO queue full",
            DiskError::InvalidDescriptor => "Invalid descriptor",
            DiskError::DeviceNotReady => "Device not ready",
            DiskError::InvalidParameter => "Invalid parameter",
        }
    }
}

} // verus!
