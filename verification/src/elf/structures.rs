//! ELF64 data structures.
use vstd::prelude::*;

verus! {

/// ELF64 file header.
#[derive(Debug, Copy, Clone)]
pub struct Elf64Header {
    pub e_ident: [u8; 16],
    pub e_type: u16,
    pub e_machine: u16,
    pub e_version: u32,
    pub e_entry: u64,
    pub e_phoff: u64,
    pub e_shoff: u64,
    pub e_flags: u32,
    pub e_ehsize: u16,
    pub e_phentsize: u16,
    pub e_phnum: u16,
    pub e_shentsize: u16,
    pub e_shnum: u16,
    pub e_shstrndx: u16,
}

/// ELF64 program header.
#[derive(Debug, Copy, Clone)]
pub struct Elf64ProgramHeader {
    pub p_type: u32,
    pub p_flags: u32,
    pub p_offset: u64,
    pub p_vaddr: u64,
    pub p_paddr: u64,
    pub p_filesz: u64,
    pub p_memsz: u64,
    pub p_align: u64,
}

/// A segment loaded into memory.
#[derive(Debug)]
pub struct ElfSegment {
    pub vaddr: u64,
    pub memsz: u64,
    pub flags: u32,
    /// Physical address where the segment's memory was allocated.
    pub data_addr: Option<usize>,
    pub data_size: usize,
}

/// What loading one segment takes: `memsz` zeroed bytes at `vaddr`, of which the
/// first `file_size` come from the file at `file_offset`.
#[derive(Debug, Copy, Clone, PartialEq, Eq, Structural)]
pub struct SegmentLoad {
    pub vaddr: u64,
    pub memsz: u64,
    pub flags: u32,
    pub file_offset: u64,
    pub file_size: usize,
}

} // verus!
