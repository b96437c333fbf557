//! Memory-management system calls: decoding, and the program break.
use vstd::prelude::*;
use super::{SysCallResult, SyscallArgs, ENOMEM, ENOSYS};

verus! {

pub const SYS_BRK: usize = 214;
pub const SYS_MUNMAP: usize = 215;
pub const SYS_MREMAP: usize = 216;
pub const SYS_MMAP: usize = 222;
pub const SYS_MPROTECT: usize = 226;
pub const SYS_MSYNC: usize = 227;
pub const SYS_MLOCK: usize = 228;
pub const SYS_MUNLOCK: usize = 229;
pub const SYS_MLOCKALL: usize = 230;
pub const SYS_MUNLOCKALL: usize = 231;
pub const SYS_MINCORE: usize = 232;
pub const SYS_MADVISE: usize = 233;
pub const SYS_GETMEMINFO: usize = 960;
pub const SYS_ALLOC_TEST: usize = 961;
pub const SYS_BUDDY_STATS: usize = 962;
pub const PROT_NONE: usize = 0;
pub const PROT_READ: usize = 1;
pub const PROT_WRITE: usize = 2;
pub const PROT_EXEC: usize = 4;
pub const MAP_SHARED: usize = 1;
pub const MAP_PRIVATE: usize = 2;
pub const MAP_FIXED: usize = 16;
pub const MAP_ANONYMOUS: usize = 32;
/// Size of the heap that the first break query allocates.
pub const INITIAL_HEAP_SIZE: usize = 64 * 1024;

/// What a memory call asks the kernel to do.
#[derive(Debug, Clone, Copy, PartialEq, Eq, Structural)]
pub enum MemoryRequest {
    /// Answered at once.
    Done(SysCallResult),
    /// Allocate this many bytes (8-byte aligned) for an anonymous mapping.
    AnonymousMap(usize),
    /// Free the (address, length) region; the call succeeds with 0.
    Unmap(usize, usize),
    /// Move the program break to the address (0 queries it).
    Brk(usize),
    /// Print memory statistics; the call succeeds with 0.
    MemInfo,
    /// Allocate and test this many bytes.
    AllocTest(usize),
    /// Print allocator statistics; the call succeeds with 0.
    BuddyStats,
}

/// Decodes a memory call. Protection, advice, locking and sync calls
/// pretend success; remapping, residency and unknown calls are `ENOSYS`;
/// a mapping that is not anonymous is `ENOSYS`.
pub fn handle_memory_syscall(args: &SyscallArgs) -> (r: MemoryRequest)
    ensures
        args.syscall_number == SYS_MMAP ==> r == (if args.arg3 & MAP_ANONYMOUS != 0 {
            MemoryRequest::AnonymousMap(args.arg1)
        } else {
            MemoryRequest::Done(SysCallResult::Error(ENOSYS))
        }),
        args.syscall_number == SYS_MUNMAP ==> r == MemoryRequest::Unmap(args.arg0, args.arg1),
        (args.syscall_number == SYS_MPROTECT || args.syscall_number == SYS_MADVISE || args.syscall_number == SYS_MLOCK
            || args.syscall_number == SYS_MUNLOCK || args.syscall_number == SYS_MLOCKALL
            || args.syscall_number == SYS_MUNLOCKALL || args.syscall_number == SYS_MSYNC)
            ==> r == MemoryRequest::Done(SysCallResult::Success(0)),
        args.syscall_number == SYS_BRK ==> r == MemoryRequest::Brk(args.arg0),
        (args.syscall_number == SYS_MREMAP || args.syscall_number == SYS_MINCORE)
            ==> r == MemoryRequest::Done(SysCallResult::Error(ENOSYS)),
        args.syscall_number == SYS_GETMEMINFO ==> r == MemoryRequest::MemInfo,
        args.syscall_number == SYS_ALLOC_TEST ==> r == MemoryRequest::AllocTest(args.arg0),
        args.syscall_number == SYS_BUDDY_STATS ==> r == MemoryRequest::BuddyStats,
        !(args.syscall_number == SYS_MMAP || args.syscall_number == SYS_MUNMAP || args.syscall_number == SYS_MPROTECT
            || args.syscall_number == SYS_MADVISE || args.syscall_number == SYS_MLOCK || args.syscall_number == SYS_MUNLOCK
            || args.syscall_number == SYS_MLOCKALL || args.syscall_number == SYS_MUNLOCKALL
            || args.syscall_number == SYS_BRK || args.syscall_number == SYS_MREMAP || args.syscall_number == SYS_MSYNC
            || args.syscall_number == SYS_MINCORE || args.syscall_number == SYS_GETMEMINFO
            || args.syscall_number == SYS_ALLOC_TEST || args.syscall_number == SYS_BUDDY_STATS)
            ==> r == MemoryRequest::Done(SysCallResult::Error(ENOSYS)),
{
    match args.syscall_number {
        SYS_MMAP => {
            if args.arg3 & MAP_ANONYMOUS != 0 {
                MemoryRequest::AnonymousMap(args.arg1)
            } else {
                MemoryRequest::Done(SysCallResult::Error(ENOSYS))
            }
        },
        SYS_MUNMAP => MemoryRequest::Unmap(args.arg0, args.arg1),
        SYS_MPROTECT => MemoryRequest::Done(SysCallResult::Success(0)),
        SYS_MADVISE => MemoryRequest::Done(SysCallResult::Success(0)),
        SYS_MLOCK => MemoryRequest::Done(SysCallResult::Success(0)),
        SYS_MUNLOCK => MemoryRequest::Done(SysCallResult::Success(0)),
        SYS_MLOCKALL => MemoryRequest::Done(SysCallResult::Success(0)),
        SYS_MUNLOCKALL => MemoryRequest::Done(SysCallResult::Success(0)),
        SYS_BRK => MemoryRequest::Brk(args.arg0),
        SYS_MREMAP => MemoryRequest::Done(SysCallResult::Error(ENOSYS)),
        SYS_MSYNC => MemoryRequest::Done(SysCallResult::Success(0)),
        SYS_MINCORE => MemoryRequest::Done(SysCallResult::Error(ENOSYS)),
        SYS_GETMEMINFO => MemoryRequest::MemInfo,
        SYS_ALLOC_TEST => MemoryRequest::AllocTest(args.arg0),
        SYS_BUDDY_STATS => MemoryRequest::BuddyStats,
        _ => MemoryRequest::Done(SysCallResult::Error(ENOSYS)),
    }
}

/// The result of an allocation-backed call: the address, or `ENOMEM`.
pub fn allocation_result(alloc: Option<usize>) -> (r: SysCallResult)
    ensures
        match alloc {
            Some(a) => r == SysCallResult::Success(a as isize),
            None => r == SysCallResult::Error(ENOMEM),
        },
{
    match alloc {
        Some(a) => SysCallResult::Success(a as isize),
        None => SysCallResult::Error(ENOMEM),
    }
}

/// The program break of the running program.
pub struct BrkState {
    pub program_break: usize,
}

impl BrkState {
    pub fn new() -> (s: Self)
        ensures
            s.program_break == 0,
    {
        BrkState { program_break: 0 }
    }

    /// How many bytes `brk(addr)` must allocate first, if any: the initial
    /// heap on the first query, the growth when the break moves up.
    pub fn brk_allocation(&self, addr: usize) -> (r: Option<usize>)
        ensures
            addr == 0 && self.program_break == 0 ==> r == Some(INITIAL_HEAP_SIZE),
            addr == 0 && self.program_break != 0 ==> r.is_none(),
            addr != 0 && addr > self.program_break ==> r == Some((addr - self.program_break) as usize),
            addr != 0 && addr <= self.program_break ==> r.is_none(),
    {
        if addr == 0 {
            if self.program_break == 0 { Some(INITIAL_HEAP_SIZE) } else { None }
        } else if addr > self.program_break {
            Some(addr - self.program_break)
        } else {
            None
        }
    }

    /// `brk(addr)` given the outcome of the allocation that `brk_allocation`
    /// asked for. A query answers the break (set to the fresh heap the first
    /// time, if it could be allocated); growth fails with `ENOMEM` when the
    /// allocation did; shrinking always succeeds.
    pub fn sys_brk(&mut self, addr: usize, alloc: Option<usize>) -> (r: SysCallResult)
        ensures
            addr == 0 ==> {
                &&& final(self).program_break == (if old(self).program_break == 0 {
                        match alloc { Some(a) => a, None => 0usize }
                    } else {
                        old(self).program_break
                    })
                &&& r == SysCallResult::Success(final(self).program_break as isize)
            },
            addr != 0 && addr > old(self).program_break ==> match alloc {
                Some(_) => final(self).program_break == addr && r == SysCallResult::Success(addr as isize),
                None => final(self).program_break == old(self).program_break && r == SysCallResult::Error(ENOMEM),
            },
            addr != 0 && addr <= old(self).program_break ==> final(self).program_break == addr
                && r == SysCallResult::Success(addr as isize),
    {
        if addr == 0 {
            if self.program_break == 0 {
                match alloc {
                    Some(a) => { self.program_break = a; },
                    None => {},
                }
            }
            SysCallResult::Success(self.program_break as isize)
        } else if addr > self.program_break {
            match alloc {
                Some(_) => {
                    self.program_break = addr;
                    SysCallResult::Success(addr as isize)
                },
                None => SysCallResult::Error(ENOMEM),
            }
        } else {
            self.program_break = addr;
            SysCallResult::Success(addr as isize)
        }
    }
}

} // verus!
