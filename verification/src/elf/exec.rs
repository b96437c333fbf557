//! Running a loaded ELF binary: where its segments were placed, where its
//! entry point lies in memory, whether that address may be run, and what a
//! trap raised by the running program asks for. Entering user mode and
//! returning from traps is the caller's part.
use vstd::prelude::*;
use super::constants::PF_X;
use super::structures::{ElfSegment, SegmentLoad};

verus! {

/// Segment `s` of a load plan, placed at `data_addr`: its file bytes start
/// there, and its data size is its file size. A file size above the memory
/// size is reported as it is (see `overlong_segment`); the memory image
/// holds only `memsz` bytes of it (see `segment_image`).
pub fn placed_segment(s: &SegmentLoad, data_addr: usize) -> (e: ElfSegment)
    ensures
        e.vaddr == s.vaddr,
        e.memsz == s.memsz,
        e.flags == s.flags,
        e.data_addr == Some(data_addr),
        e.data_size == s.file_size,
{
    ElfSegment { vaddr: s.vaddr, memsz: s.memsz, flags: s.flags, data_addr: Some(data_addr), data_size: s.file_size }
}

/// Whether a planned segment has more file bytes than memory: bytes past
/// `memsz` are not placed.
pub fn overlong_segment(s: &SegmentLoad) -> (b: bool)
    ensures
        b == (s.file_size > s.memsz),
{
    s.file_size as u64 > s.memsz
}

/// Whether segment `s` is executable, placed, and holds virtual address
/// `entry` within its data.
pub open spec fn holds_entry(s: ElfSegment, entry: int) -> bool {
    &&& s.flags & PF_X != 0
    &&& s.data_addr is Some
    &&& s.vaddr <= entry < s.vaddr + s.data_size
}

/// The memory address of virtual address `entry`, by the first segment from
/// `k` on that holds it.
pub open spec fn translate_from(segs: Seq<ElfSegment>, entry: int, k: int) -> Option<int>
    decreases segs.len() - k,
{
    if k >= segs.len() || k < 0 {
        None
    } else if holds_entry(segs[k], entry) {
        Some(segs[k].data_addr->0 + (entry - segs[k].vaddr))
    } else {
        translate_from(segs, entry, k + 1)
    }
}

/// Whether every placed segment of `segs` lies within the address space.
pub open spec fn placements_fit(segs: Seq<ElfSegment>) -> bool {
    forall|i: int| 0 <= i < segs.len() ==> (#[trigger] segs[i]).data_addr matches Some(a) && a + segs[i].data_size
        <= usize::MAX || segs[i].data_addr is None
}

/// The memory address at which to start a program whose entry point is
/// `entry`: found through the first executable segment that holds it;
/// `None` when no segment does.
pub fn physical_entry(segments: &[ElfSegment], entry: u64) -> (r: Option<usize>)
    requires
        placements_fit(segments@),
    ensures
        r == (match translate_from(segments@, entry as int, 0) {
            Some(a) => Some(a as usize),
            None => None::<usize>,
        }),
{
    let mut k: usize = 0;
    while k < segments.len()
        invariant
            k <= segments@.len(),
            placements_fit(segments@),
            translate_from(segments@, entry as int, 0) == translate_from(segments@, entry as int, k as int),
        decreases segments@.len() - k,
    {
        let s = &segments[k];
        if s.flags & PF_X != 0 && entry >= s.vaddr && entry - s.vaddr < s.data_size as u64 {
            if let Some(addr) = s.data_addr {
                assert(holds_entry(segments@[k as int], entry as int));
                assert(addr + segments@[k as int].data_size <= usize::MAX);
                let offset = (entry - s.vaddr) as usize;
                return Some(addr + offset);
            }
        }
        k = k + 1;
    }
    None
}

/// Whether an entry address may be jumped to.
#[derive(Debug, Clone, Copy, PartialEq, Eq, Structural)]
pub enum EntryCheck {
    /// Not 4-byte aligned, as RISC-V instructions must be.
    Misaligned,
    /// Outside the memory programs are loaded into.
    Suspicious,
    Runnable,
}

/// Lowest and highest addresses an entry point may have.
pub const ENTRY_LOW: usize = 0x8000_0000;
pub const ENTRY_HIGH: usize = 0x9000_0000;

/// Checks an entry address before it is run: it must be 4-byte aligned and
/// lie from `ENTRY_LOW` to `ENTRY_HIGH`.
pub fn check_entry_point(entry: usize) -> (c: EntryCheck)
    ensures
        entry % 4 != 0 ==> c == EntryCheck::Misaligned,
        entry % 4 == 0 && (entry < ENTRY_LOW || entry > ENTRY_HIGH) ==> c == EntryCheck::Suspicious,
        entry % 4 == 0 && ENTRY_LOW <= entry <= ENTRY_HIGH ==> c == EntryCheck::Runnable,
{
    if entry % 4 != 0 {
        EntryCheck::Misaligned
    } else if entry < ENTRY_LOW || entry > ENTRY_HIGH {
        EntryCheck::Suspicious
    } else {
        EntryCheck::Runnable
    }
}

/// System call number of `write`.
pub const TRAP_SYS_WRITE: u64 = 64;
/// Longest message a trapped `write` prints, exclusive.
pub const TRAP_WRITE_LIMIT: u64 = 1024;

/// What to do with a trap raised by a running program; the program then
/// resumes after the trapping instruction.
#[derive(Debug, Clone, Copy, PartialEq, Eq, Structural)]
pub enum TrapAction {
    /// A `write` to standard output: print `len` bytes from `ptr`, answer `len`.
    Write { ptr: u64, len: u64 },
    /// Another system call: answer 0.
    ReturnZero,
    /// An exception that is not a system call, with its code: skip it.
    Skip(u64),
}

/// Decides a trap from its cause register and the call registers `a0`
/// (number), `a1` (descriptor), `a2` (buffer) and `a3` (length): environment
/// calls (exception codes 8 and 9) are system calls, of which a `write` to
/// descriptor 1 of 1 to 1023 bytes is printed.
pub fn trap_action(scause: u64, a0: u64, a1: u64, a2: u64, a3: u64) -> (t: TrapAction)
    ensures
        ({
            let code = scause % 0x8000_0000_0000_0000;
            &&& (code == 8 || code == 9) && a0 == TRAP_SYS_WRITE && a1 == 1 && 0 < a3 < TRAP_WRITE_LIMIT
                ==> t == TrapAction::Write { ptr: a2, len: a3 }
            &&& (code == 8 || code == 9) && !(a0 == TRAP_SYS_WRITE && a1 == 1 && 0 < a3 < TRAP_WRITE_LIMIT)
                ==> t == TrapAction::ReturnZero
            &&& !(code == 8 || code == 9) ==> t == TrapAction::Skip(code as u64)
        }),
{
    let code = scause & 0x7FFF_FFFF_FFFF_FFFF;
    assert(code == scause % 0x8000_0000_0000_0000) by (bit_vector)
        requires
            code == scause & 0x7FFF_FFFF_FFFF_FFFF,
    ;
    if code == 8 || code == 9 {
        if a0 == TRAP_SYS_WRITE && a1 == 1 && a3 > 0 && a3 < TRAP_WRITE_LIMIT {
            TrapAction::Write { ptr: a2, len: a3 }
        } else {
            TrapAction::ReturnZero
        }
    } else {
        TrapAction::Skip(code)
    }
}

} // verus!
