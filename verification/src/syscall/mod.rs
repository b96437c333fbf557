//! Linux-compatible system call interface: arguments, results and dispatch.
pub mod boot;
pub mod device;
pub mod elinos;
pub mod memory;
pub mod process;
pub mod sysinfo;

use vstd::prelude::*;

verus! {

pub const EPERM: isize = 1;
pub const ENOEXEC: isize = 8;
pub const ECHILD: isize = 10;
pub const ENOMEM: isize = 12;
pub const ENODEV: isize = 19;
pub const EINVAL: isize = 22;
pub const ENOTTY: isize = 25;
pub const ENOSYS: isize = 38;

/// Outcome of a system call: a value, or an error number.
#[derive(Debug, Clone, Copy, PartialEq, Eq, Structural)]
pub enum SysCallResult {
    Success(isize),
    Error(isize),
}

/// The registers of a system call: its number and six arguments.
#[derive(Debug, Clone, Copy, PartialEq, Eq, Structural)]
pub struct SyscallArgs {
    pub syscall_number: usize,
    pub arg0: usize,
    pub arg1: usize,
    pub arg2: usize,
    pub arg3: usize,
    pub arg4: usize,
    pub arg5: usize,
}

impl SyscallArgs {
    pub fn new(syscall_number: usize, arg0: usize, arg1: usize, arg2: usize, arg3: usize, arg4: usize, arg5: usize) -> (a: Self)
        ensures
            a == (SyscallArgs { syscall_number, arg0, arg1, arg2, arg3, arg4, arg5 }),
    {
        SyscallArgs { syscall_number, arg0, arg1, arg2, arg3, arg4, arg5 }
    }

    /// The first argument as a 32-bit integer (low 32 bits).
    pub fn arg0_as_i32(&self) -> (v: i32)
        ensures
            v == self.arg0 as i32,
    {
        self.arg0 as i32
    }

    pub fn arg1_as_i32(&self) -> (v: i32)
        ensures
            v == self.arg1 as i32,
    {
        self.arg1 as i32
    }

    pub fn arg2_as_i32(&self) -> (v: i32)
        ensures
            v == self.arg2 as i32,
    {
        self.arg2 as i32
    }
}

} // verus!
