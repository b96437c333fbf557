//! ELF constants and segment permission strings.
use vstd::prelude::*;

verus! {

/// First byte of the ELF magic number.
pub const ELF_MAGIC0: u8 = 0x7f;
/// Second byte of the ELF magic number (`E`).
pub const ELF_MAGIC1: u8 = 0x45;
/// Third byte of the ELF magic number (`L`).
pub const ELF_MAGIC2: u8 = 0x4c;
/// Fourth byte of the ELF magic number (`F`).
pub const ELF_MAGIC3: u8 = 0x46;
/// 64-bit ELF class.
pub const ELFCLASS64: u8 = 2;
/// Little-endian data encoding.
pub const ELFDATA2LSB: u8 = 1;
/// RISC-V machine type.
pub const EM_RISCV: u16 = 243;
/// Executable file type.
pub const ET_EXEC: u16 = 2;
/// Shared object file type.
pub const ET_DYN: u16 = 3;
/// Loadable segment.
pub const PT_LOAD: u32 = 1;
/// Execute permission flag.
pub const PF_X: u32 = 1;
/// Write permission flag.
pub const PF_W: u32 = 2;
/// Read permission flag.
pub const PF_R: u32 = 4;

/// The three-letter permission string of the permission bits `r`, `w`, `x`.
pub open spec fn perm_string(r: bool, w: bool, x: bool) -> Seq<char> {
    seq![if r { 'R' } else { '-' }, if w { 'W' } else { '-' }, if x { 'X' } else { '-' }]
}

/// Segment permissions as a three-letter string such as `R-X`; bits other than
/// read, write and execute are ignored.
pub fn segment_permissions(flags: u32) -> (s: &'static str)
    ensures
        s@ == perm_string(flags & PF_R != 0, flags & PF_W != 0, flags & PF_X != 0),
{
    proof {
        reveal_strlit("---");
        reveal_strlit("R--");
        reveal_strlit("-W-");
        reveal_strlit("--X");
        reveal_strlit("RW-");
        reveal_strlit("R-X");
        reveal_strlit("-WX");
        reveal_strlit("RWX");
    }
    let r = flags & PF_R != 0;
    let w = flags & PF_W != 0;
    let x = flags & PF_X != 0;
    match (r, w, x) {
        (false, false, false) => "---",
        (true, false, false) => "R--",
        (false, true, false) => "-W-",
        (false, false, true) => "--X",
        (true, true, false) => "RW-",
        (true, false, true) => "R-X",
        (false, true, true) => "-WX",
        (true, true, true) => "RWX",
    }
}

} // verus!
