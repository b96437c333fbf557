//! ELF error type.
use vstd::prelude::*;

verus! {

/// Errors of ELF parsing, loading and execution.
#[derive(Debug, Clone, Copy, PartialEq, Eq, Structural)]
pub enum ElfError {
    InvalidMagic,
    UnsupportedClass,
    UnsupportedEndian,
    UnsupportedMachine,
    UnsupportedType,
    InvalidHeader,
    LoadError,
    ExecutionError,
    MemoryAllocationFailed,
    InvalidEntryPoint,
}

/// Result of an ELF operation.
pub type ElfResult<T> = Result<T, ElfError>;

/// The text of each ELF error.
pub open spec fn elf_error_text(e: ElfError) -> Seq<char> {
    match e {
        ElfError::InvalidMagic => "Invalid ELF magic number"@,
        ElfError::UnsupportedClass => "Unsupported ELF class"@,
        ElfError::UnsupportedEndian => "Unsupported endianness"@,
        ElfError::UnsupportedMachine => "Unsupported machine type"@,
        ElfError::UnsupportedType => "Unsupported ELF type"@,
        ElfError::InvalidHeader => "Invalid ELF header"@,
        ElfError::LoadError => "ELF loading error"@,
        ElfError::ExecutionError => "ELF execution error"@,
        ElfError::MemoryAllocationFailed => "Memory allocation failed"@,
        ElfError::InvalidEntryPoint => "Invalid entry point"@,
    }
}

impl ElfError {
    /// The human-readable description of the error.
    pub fn message(&self) -> (s: &'static str)
        ensures
            s@ == elf_error_text(*self),
    {
        match self {
            ElfError::InvalidMagic => "Invalid ELF magic number",
            ElfError::UnsupportedClass => "Unsupported ELF class",
            ElfError::UnsupportedEndian => "Unsupported endianness",
            ElfError::UnsupportedMachine => "Unsupported machine type",
            ElfError::UnsupportedType => "Unsupported ELF type",
            ElfError::InvalidHeader => "Invalid ELF header",
            ElfError::LoadError => "ELF loading error",
            ElfError::ExecutionError => "ELF execution error",
            ElfError::MemoryAllocationFailed => "Memory allocation failed",
            ElfError::InvalidEntryPoint => "Invalid entry point",
        }
    }
}

} // verus!
