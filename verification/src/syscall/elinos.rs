//! elinOS-specific system calls: what each number asks the kernel to do.
use vstd::prelude::*;
use super::{SysCallResult, SyscallArgs, EINVAL, ENOSYS};

verus! {

pub const SYS_ELINOS_DEBUG: usize = 900;
pub const SYS_ELINOS_STATS: usize = 901;
pub const SYS_ELINOS_VERSION: usize = 902;
pub const SYS_ELINOS_SHUTDOWN: usize = 903;
pub const SYS_ELINOS_REBOOT: usize = 904;
pub const SYS_LOAD_ELF: usize = 905;
pub const SYS_EXEC_ELF: usize = 906;
pub const SYS_ELF_INFO: usize = 907;

/// The operation an elinOS call asks for.
#[derive(Debug, Clone, Copy, PartialEq, Eq, Structural)]
pub enum ElinosRequest {
    /// Print the version banner; the call succeeds with 0.
    Version,
    /// Print the NUL-terminated message (at most 1024 bytes) at the address.
    Debug(usize),
    Shutdown,
    Reboot,
    /// Load the ELF image at (address, size).
    LoadElf(usize, usize),
    /// Load and run the ELF image at (address, size).
    ExecElf(usize, usize),
    /// Describe the ELF image at (address, size).
    ElfInfo(usize, usize),
    /// Answered at once.
    Done(SysCallResult),
}

/// Decodes an elinOS call: a debug message at address 0 is `EINVAL`, and an
/// unknown number is `ENOSYS`.
pub fn handle_elinos_syscall(args: &SyscallArgs) -> (r: ElinosRequest)
    ensures
        args.syscall_number == SYS_ELINOS_VERSION ==> r == ElinosRequest::Version,
        args.syscall_number == SYS_ELINOS_DEBUG ==> r == (if args.arg0 == 0 {
            ElinosRequest::Done(SysCallResult::Error(EINVAL))
        } else {
            ElinosRequest::Debug(args.arg0)
        }),
        args.syscall_number == SYS_ELINOS_SHUTDOWN ==> r == ElinosRequest::Shutdown,
        args.syscall_number == SYS_ELINOS_REBOOT ==> r == ElinosRequest::Reboot,
        args.syscall_number == SYS_LOAD_ELF ==> r == ElinosRequest::LoadElf(args.arg0, args.arg1),
        args.syscall_number == SYS_EXEC_ELF ==> r == ElinosRequest::ExecElf(args.arg0, args.arg1),
        args.syscall_number == SYS_ELF_INFO ==> r == ElinosRequest::ElfInfo(args.arg0, args.arg1),
        !(SYS_ELINOS_DEBUG <= args.syscall_number <= SYS_ELF_INFO && args.syscall_number != SYS_ELINOS_STATS)
            ==> r == ElinosRequest::Done(SysCallResult::Error(ENOSYS)),
        args.syscall_number == SYS_ELINOS_STATS ==> r == ElinosRequest::Done(SysCallResult::Error(ENOSYS)),
{
    match args.syscall_number {
        SYS_ELINOS_VERSION => ElinosRequest::Version,
        SYS_ELINOS_DEBUG => {
            if args.arg0 == 0 {
                ElinosRequest::Done(SysCallResult::Error(EINVAL))
            } else {
                ElinosRequest::Debug(args.arg0)
            }
        },
        SYS_ELINOS_SHUTDOWN => ElinosRequest::Shutdown,
        SYS_ELINOS_REBOOT => ElinosRequest::Reboot,
        SYS_LOAD_ELF => ElinosRequest::LoadElf(args.arg0, args.arg1),
        SYS_EXEC_ELF => ElinosRequest::ExecElf(args.arg0, args.arg1),
        SYS_ELF_INFO => ElinosRequest::ElfInfo(args.arg0, args.arg1),
        _ => ElinosRequest::Done(SysCallResult::Error(ENOSYS)),
    }
}

/// Checks the arguments of an ELF call: a null address or empty image is
/// `EINVAL`.
pub fn check_elf_args(data_ptr: usize, size: usize) -> (r: Option<SysCallResult>)
    ensures
        (data_ptr == 0 || size == 0) <==> r == Some(SysCallResult::Error(EINVAL)),
        !(data_ptr == 0 || size == 0) <==> r.is_none(),
{
    if data_ptr == 0 || size == 0 {
        Some(SysCallResult::Error(EINVAL))
    } else {
        None
    }
}

/// Length of the debug message in `bytes`: up to the first NUL, at most 1024.
pub fn debug_message_len(bytes: &[u8]) -> (n: usize)
    ensures
        n <= bytes@.len(),
        n <= 1024,
        forall|i: int| 0 <= i < n ==> bytes@[i] != 0,
        n < bytes@.len() && n < 1024 ==> bytes@[n as int] == 0,
{
    let mut len: usize = 0;
    while len < bytes.len() && len < 1024 && bytes[len] != 0
        invariant
            len <= bytes@.len(),
            len <= 1024,
            forall|i: int| 0 <= i < len ==> bytes@[i] != 0,
        decreases bytes@.len() - len,
    {
        len = len + 1;
    }
    len
}

} // verus!
