//! System information calls.
use vstd::prelude::*;
use super::{SysCallResult, SyscallArgs, ENOSYS};

verus! {

pub const SYS_UNAME: usize = 301;
pub const SYS_SYSINFO: usize = 302;

/// No system information call is implemented.
pub fn handle_sysinfo_syscall(_args: &SyscallArgs) -> (r: SysCallResult)
    ensures
        r == SysCallResult::Error(ENOSYS),
{
    SysCallResult::Error(ENOSYS)
}

} // verus!
