//! ELF64 header and program header parsing.
use vstd::prelude::*;
use super::bytes::{le_u16, le_u32, le_u64, read_le_u16, read_le_u32, read_le_u64};
use super::constants::{ELFCLASS64, ELFDATA2LSB, EM_RISCV, ET_EXEC, ET_DYN};
use super::error::{ElfError, ElfResult};
use super::structures::{Elf64Header, Elf64ProgramHeader};

verus! {

/// Size of an ELF64 file header in bytes.
pub const ELF64_HEADER_SIZE: usize = 64;
/// Size of an ELF64 program header in bytes.
pub const ELF64_PHDR_SIZE: usize = 56;

/// The first check that the header at the start of `d` fails, if any.
pub open spec fn header_error(d: Seq<u8>) -> Option<ElfError> {
    if d.len() < 64 {
        Some(ElfError::InvalidHeader)
    } else if !(d[0] == 0x7f && d[1] == 0x45 && d[2] == 0x4c && d[3] == 0x46) {
        Some(ElfError::InvalidMagic)
    } else if d[4] != ELFCLASS64 {
        Some(ElfError::UnsupportedClass)
    } else if d[5] != ELFDATA2LSB {
        Some(ElfError::UnsupportedEndian)
    } else if le_u16(d, 18) != EM_RISCV {
        Some(ElfError::UnsupportedMachine)
    } else if le_u16(d, 16) != ET_EXEC && le_u16(d, 16) != ET_DYN {
        Some(ElfError::UnsupportedType)
    } else {
        None
    }
}

/// `h` holds the fields of the ELF64 header stored at the start of `d`.
pub open spec fn header_decodes(h: Elf64Header, d: Seq<u8>) -> bool {
    &&& d.len() >= 64
    &&& h.e_ident@ == d.subrange(0, 16)
    &&& h.e_type == le_u16(d, 16)
    &&& h.e_machine == le_u16(d, 18)
    &&& h.e_version == le_u32(d, 20)
    &&& h.e_entry == le_u64(d, 24)
    &&& h.e_phoff == le_u64(d, 32)
    &&& h.e_shoff == le_u64(d, 40)
    &&& h.e_flags == le_u32(d, 48)
    &&& h.e_ehsize == le_u16(d, 52)
    &&& h.e_phentsize == le_u16(d, 54)
    &&& h.e_phnum == le_u16(d, 56)
    &&& h.e_shentsize == le_u16(d, 58)
    &&& h.e_shnum == le_u16(d, 60)
    &&& h.e_shstrndx == le_u16(d, 62)
}

/// `p` holds the fields of the program header stored at `off` in `d`.
pub open spec fn phdr_decodes(p: Elf64ProgramHeader, d: Seq<u8>, off: int) -> bool {
    &&& 0 <= off && off + 56 <= d.len()
    &&& p.p_type == le_u32(d, off)
    &&& p.p_flags == le_u32(d, off + 4)
    &&& p.p_offset == le_u64(d, off + 8)
    &&& p.p_vaddr == le_u64(d, off + 16)
    &&& p.p_paddr == le_u64(d, off + 24)
    &&& p.p_filesz == le_u64(d, off + 32)
    &&& p.p_memsz == le_u64(d, off + 40)
    &&& p.p_align == le_u64(d, off + 48)
}

/// Every program header the header at the start of `d` lists lies within `d`.
pub open spec fn phdrs_fit(d: Seq<u8>) -> bool {
    forall|i: int| 0 <= i < le_u16(d, 56) ==> #[trigger] (le_u64(d, 32) + i * le_u16(d, 54)) + 56 <= d.len()
}

/// Decodes the ELF64 header at the start of `data` (its length is not checked).
pub fn decode_header(data: &[u8]) -> (h: Elf64Header)
    requires
        data@.len() >= 64,
    ensures
        header_decodes(h, data@),
{
    let mut ident = [0u8; 16];
    let mut i: usize = 0;
    while i < 16
        invariant
            0 <= i <= 16,
            data@.len() >= 64,
            ident@.len() == 16,
            forall|j: int| 0 <= j < i ==> ident@[j] == data@[j],
        decreases 16 - i,
    {
        ident[i] = data[i];
        i = i + 1;
    }
    assert(ident@ =~= data@.subrange(0, 16));
    Elf64Header {
        e_ident: ident,
        e_type: read_le_u16(data, 16),
        e_machine: read_le_u16(data, 18),
        e_version: read_le_u32(data, 20),
        e_entry: read_le_u64(data, 24),
        e_phoff: read_le_u64(data, 32),
        e_shoff: read_le_u64(data, 40),
        e_flags: read_le_u32(data, 48),
        e_ehsize: read_le_u16(data, 52),
        e_phentsize: read_le_u16(data, 54),
        e_phnum: read_le_u16(data, 56),
        e_shentsize: read_le_u16(data, 58),
        e_shnum: read_le_u16(data, 60),
        e_shstrndx: read_le_u16(data, 62),
    }
}

/// Decodes the program header stored at `off` in `data`.
pub fn decode_program_header(data: &[u8], off: usize) -> (p: Elf64ProgramHeader)
    requires
        off + 56 <= data@.len(),
    ensures
        phdr_decodes(p, data@, off as int),
{
    let _n = data.len();
    Elf64ProgramHeader {
        p_type: read_le_u32(data, off),
        p_flags: read_le_u32(data, off + 4),
        p_offset: read_le_u64(data, off + 8),
        p_vaddr: read_le_u64(data, off + 16),
        p_paddr: read_le_u64(data, off + 24),
        p_filesz: read_le_u64(data, off + 32),
        p_memsz: read_le_u64(data, off + 40),
        p_align: read_le_u64(data, off + 48),
    }
}

/// Parser and validator of ELF64 binaries.
pub struct ElfParser;

impl ElfParser {
    pub fn new() -> (p: Self) {
        ElfParser
    }

    /// Parses and validates the ELF header: a little-endian ELF64 RISC-V
    /// executable or shared object.
    pub fn parse_header(&self, data: &[u8]) -> (r: ElfResult<Elf64Header>)
        ensures
            match r {
                Ok(h) => header_error(data@).is_none() && header_decodes(h, data@),
                Err(e) => header_error(data@) == Some(e),
            },
    {
        if data.len() < ELF64_HEADER_SIZE {
            return Err(ElfError::InvalidHeader);
        }
        let header = decode_header(data);
        if !(header.e_ident[0] == 0x7f && header.e_ident[1] == 0x45 && header.e_ident[2] == 0x4c
            && header.e_ident[3] == 0x46) {
            return Err(ElfError::InvalidMagic);
        }
        if header.e_ident[4] != ELFCLASS64 {
            return Err(ElfError::UnsupportedClass);
        }
        if header.e_ident[5] != ELFDATA2LSB {
            return Err(ElfError::UnsupportedEndian);
        }
        if header.e_machine != EM_RISCV {
            return Err(ElfError::UnsupportedMachine);
        }
        if header.e_type != ET_EXEC && header.e_type != ET_DYN {
            return Err(ElfError::UnsupportedType);
        }
        Ok(header)
    }

    /// The header and program headers of a binary, as the info display
    /// shows them: the header must be valid, and every listed program
    /// header must lie within the file, else `InvalidHeader`.
    pub fn display_elf_info(&self, data: &[u8]) -> (r: ElfResult<(Elf64Header, Vec<Elf64ProgramHeader>)>)
        ensures
            header_error(data@) matches Some(e) ==> r == Err::<(Elf64Header, Vec<Elf64ProgramHeader>), ElfError>(e),
            header_error(data@) is None && !phdrs_fit(data@) ==> r == Err::<(Elf64Header, Vec<Elf64ProgramHeader>), ElfError>(
                ElfError::InvalidHeader,
            ),
            header_error(data@) is None && phdrs_fit(data@) ==> (r matches Ok((h, phs)) && {
                &&& header_decodes(h, data@)
                &&& phs@.len() == h.e_phnum
                &&& forall|i: int| 0 <= i < phs@.len() ==> phdr_decodes(#[trigger] phs@[i], data@, h.e_phoff + i * h.e_phentsize)
            }),
    {
        let header = match self.parse_header(data) {
            Ok(h) => h,
            Err(e) => {
                return Err(e);
            },
        };
        let n = data.len();
        let count = header.e_phnum;
        let entsize = header.e_phentsize;
        let mut phs: Vec<Elf64ProgramHeader> = Vec::new();
        let mut i: u16 = 0;
        while i < count
            invariant
                n == data@.len(),
                header_error(data@).is_none(),
                header_decodes(header, data@),
                count == header.e_phnum,
                entsize == header.e_phentsize,
                i <= count,
                phs@.len() == i,
                forall|k: int| 0 <= k < i ==> #[trigger] (le_u64(data@, 32) + k * le_u16(data@, 54)) + 56 <= data@.len(),
                forall|k: int| 0 <= k < i ==> phdr_decodes(#[trigger] phs@[k], data@, header.e_phoff + k * header.e_phentsize),
            decreases count - i,
        {
            proof {
                assert((i as int) * (entsize as int) <= 0xffff * 0xffff) by (nonlinear_arith)
                    requires
                        i <= 0xffff,
                        entsize <= 0xffff,
                ;
                assert(0 <= (i as int) * (entsize as int)) by (nonlinear_arith)
                    requires
                        i >= 0,
                        entsize >= 0,
                ;
            }
            let off: u128 = header.e_phoff as u128 + (i as u128) * (entsize as u128);
            if off + 56 > n as u128 {
                proof {
                    assert(!phdrs_fit(data@)) by {
                        assert(le_u64(data@, 32) + i * le_u16(data@, 54) + 56 > data@.len());
                    }
                }
                return Err(ElfError::InvalidHeader);
            }
            let ph = decode_program_header(data, off as usize);
            phs.push(ph);
            i = i + 1;
        }
        Ok((header, phs))
    }

    /// Whether `data` starts with a valid header.
    pub fn is_elf(&self, data: &[u8]) -> (b: bool)
        ensures
            b == header_error(data@).is_none(),
    {
        self.parse_header(data).is_ok()
    }
}

} // verus!
