//! The device calls of the boot stage, before the kernel's terminals exist.
use vstd::prelude::*;
use super::device::SYS_GETDEVICES;
use super::{SysCallResult, SyscallArgs, ENOSYS};

verus! {

/// The boot stage answers the device listing with 0 and has no other
/// device call (`ENOSYS`), terminal control included.
pub fn handle_device_syscall(args: &SyscallArgs) -> (r: SysCallResult)
    ensures
        args.syscall_number == SYS_GETDEVICES ==> r == SysCallResult::Success(0),
        args.syscall_number != SYS_GETDEVICES ==> r == SysCallResult::Error(ENOSYS),
{
    if args.syscall_number == SYS_GETDEVICES {
        SysCallResult::Success(0)
    } else {
        SysCallResult::Error(ENOSYS)
    }
}

} // verus!
