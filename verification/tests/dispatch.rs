use elinos::syscall::device::{
    get_tty_for_fd, handle_device_syscall, ioctl_input_kind, tty_ioctl, DeviceRequest, IoctlInput, IoctlOutput,
    Termios, TtyDevice, SYS_GETDEVICES, SYS_IOCTL, SYS_PIPE2, TCFLSH, TCSETS, TCSETSF, TIOCGPGRP, TIOCSCTTY,
    TIOCSPGRP, TIOCSWINSZ,
};
use elinos::syscall::elinos::{
    check_elf_args, debug_message_len, handle_elinos_syscall, ElinosRequest, SYS_ELF_INFO, SYS_ELINOS_DEBUG,
    SYS_ELINOS_STATS, SYS_ELINOS_VERSION, SYS_LOAD_ELF,
};
use elinos::syscall::memory::{
    allocation_result, handle_memory_syscall, MemoryRequest, MAP_ANONYMOUS, SYS_BRK, SYS_MMAP, SYS_MPROTECT,
    SYS_MREMAP, SYS_MUNMAP,
};
use elinos::syscall::process::{
    handle_process_syscall, sys_wait4, Process, ProcessEffect, ProcessManager, ProcessState, SYS_EXECVE, SYS_EXIT,
    SYS_FORK, SYS_GETPGID, SYS_GETPID, SYS_GETPPID, SYS_KILL, SYS_WAIT4,
};
use elinos::syscall::sysinfo::{handle_sysinfo_syscall, SYS_UNAME};
use elinos::syscall::boot;
use elinos::syscall::{SysCallResult, SyscallArgs, ECHILD, EINVAL, ENOMEM, ENOSYS};

fn call(n: usize, a0: usize, a1: usize, a2: usize, a3: usize) -> SyscallArgs {
    SyscallArgs::new(n, a0, a1, a2, a3, 0, 0)
}

#[test]
fn argument_narrowing() {
    let a = call(1, usize::MAX, 0x1_0000_0005, 7, 0);
    assert_eq!(a.arg0_as_i32(), -1);
    assert_eq!(a.arg1_as_i32(), 5);
    assert_eq!(a.arg2_as_i32(), 7);
}

#[test]
fn memory_calls_decode() {
    assert_eq!(handle_memory_syscall(&call(SYS_MMAP, 0, 4096, 3, MAP_ANONYMOUS)), MemoryRequest::AnonymousMap(4096));
    assert_eq!(
        handle_memory_syscall(&call(SYS_MMAP, 0, 4096, 3, 0)),
        MemoryRequest::Done(SysCallResult::Error(ENOSYS))
    );
    assert_eq!(handle_memory_syscall(&call(SYS_MUNMAP, 0x1000, 64, 0, 0)), MemoryRequest::Unmap(0x1000, 64));
    assert_eq!(handle_memory_syscall(&call(SYS_MPROTECT, 0, 0, 0, 0)), MemoryRequest::Done(SysCallResult::Success(0)));
    assert_eq!(handle_memory_syscall(&call(SYS_BRK, 0x9000, 0, 0, 0)), MemoryRequest::Brk(0x9000));
    assert_eq!(handle_memory_syscall(&call(SYS_MREMAP, 0, 0, 0, 0)), MemoryRequest::Done(SysCallResult::Error(ENOSYS)));
    assert_eq!(handle_memory_syscall(&call(12345, 0, 0, 0, 0)), MemoryRequest::Done(SysCallResult::Error(ENOSYS)));
    assert_eq!(allocation_result(Some(0x8000)), SysCallResult::Success(0x8000));
    assert_eq!(allocation_result(None), SysCallResult::Error(ENOMEM));
}

#[test]
fn process_calls_dispatch() {
    let mut pm = ProcessManager::new();
    let args = call(SYS_GETPID, 0, 0, 0, 0);
    assert_eq!(handle_process_syscall(&mut pm, SYS_GETPID, &args), (SysCallResult::Success(1), ProcessEffect::Nothing));
    assert_eq!(handle_process_syscall(&mut pm, SYS_GETPPID, &args).0, SysCallResult::Success(0));
    assert_eq!(handle_process_syscall(&mut pm, SYS_GETPGID, &args).0, SysCallResult::Success(1));
    assert_eq!(handle_process_syscall(&mut pm, SYS_EXECVE, &args).0, SysCallResult::Success(0));
    assert_eq!(handle_process_syscall(&mut pm, SYS_KILL, &args).0, SysCallResult::Error(ENOSYS));
    assert_eq!(handle_process_syscall(&mut pm, 9999, &args).0, SysCallResult::Error(ENOSYS));
    assert_eq!(handle_process_syscall(&mut pm, SYS_WAIT4, &args), (SysCallResult::Error(ECHILD), ProcessEffect::Nothing));
    let (r, effect) = handle_process_syscall(&mut pm, SYS_FORK, &args);
    assert_eq!(r, SysCallResult::Success(2));
    assert_eq!(effect, ProcessEffect::Nothing);
    let exit = call(SYS_EXIT, 3, 0, 0, 0);
    assert_eq!(handle_process_syscall(&mut pm, SYS_EXIT, &exit), (SysCallResult::Success(3), ProcessEffect::Exited(3)));
}

#[test]
fn waiting_stores_the_exit_status() {
    let mut pm = ProcessManager::new();
    let _ = pm.allocate_pid();
    let child = pm.create_process(1).unwrap();
    pm.exit_process(child, 9);
    assert_eq!(pm.get_process(child).unwrap().state, ProcessState::Zombie);
    assert_eq!(sys_wait4(&mut pm, 0x4000), (SysCallResult::Success(child as isize), ProcessEffect::StoreStatus(0x4000, 9)));
    assert_eq!(sys_wait4(&mut pm, 0x4000), (SysCallResult::Error(ECHILD), ProcessEffect::Nothing));
    let p = Process::new_with_pid(5, 1);
    assert_eq!((p.pid, p.ppid, p.state), (5, 1, ProcessState::Running));
}

#[test]
fn elinos_calls_decode() {
    assert_eq!(handle_elinos_syscall(&call(SYS_ELINOS_VERSION, 0, 0, 0, 0)), ElinosRequest::Version);
    assert_eq!(
        handle_elinos_syscall(&call(SYS_ELINOS_DEBUG, 0, 0, 0, 0)),
        ElinosRequest::Done(SysCallResult::Error(EINVAL))
    );
    assert_eq!(handle_elinos_syscall(&call(SYS_ELINOS_DEBUG, 0x10, 0, 0, 0)), ElinosRequest::Debug(0x10));
    assert_eq!(handle_elinos_syscall(&call(SYS_LOAD_ELF, 0x10, 64, 0, 0)), ElinosRequest::LoadElf(0x10, 64));
    assert_eq!(handle_elinos_syscall(&call(SYS_ELF_INFO, 0x10, 64, 0, 0)), ElinosRequest::ElfInfo(0x10, 64));
    assert_eq!(
        handle_elinos_syscall(&call(SYS_ELINOS_STATS, 0, 0, 0, 0)),
        ElinosRequest::Done(SysCallResult::Error(ENOSYS))
    );
    assert_eq!(check_elf_args(0, 10), Some(SysCallResult::Error(EINVAL)));
    assert_eq!(check_elf_args(0x10, 0), Some(SysCallResult::Error(EINVAL)));
    assert_eq!(check_elf_args(0x10, 10), None);
    assert_eq!(debug_message_len(b"hello\0world"), 5);
    assert_eq!(debug_message_len(b"no nul"), 6);
    assert_eq!(debug_message_len(&[b'a'; 2000]), 1024);
    assert_eq!(handle_sysinfo_syscall(&call(SYS_UNAME, 0, 0, 0, 0)), SysCallResult::Error(ENOSYS));
}

#[test]
fn device_calls_decode() {
    assert_eq!(handle_device_syscall(&call(SYS_IOCTL, 1, TCSETS, 0x100, 0)), DeviceRequest::Ioctl(1, TCSETS, 0x100));
    assert_eq!(handle_device_syscall(&call(SYS_GETDEVICES, 0, 0, 0, 0)), DeviceRequest::GetDevices);
    assert_eq!(
        handle_device_syscall(&call(SYS_PIPE2, 0, 0, 0, 0)),
        DeviceRequest::Done(SysCallResult::Error(ENOSYS))
    );
    assert_eq!(get_tty_for_fd(2), Some(0));
    assert_eq!(get_tty_for_fd(3), None);
    assert_eq!(get_tty_for_fd(0), Some(0));
    assert_eq!(get_tty_for_fd(-1), None);
    assert_eq!(ioctl_input_kind(TCSETSF, 0x100), 1);
    assert_eq!(ioctl_input_kind(TIOCSWINSZ, 0x100), 2);
    assert_eq!(ioctl_input_kind(TIOCSPGRP, 0x100), 3);
    assert_eq!(ioctl_input_kind(TCSETS, 0), 0);
    assert_eq!(ioctl_input_kind(TIOCGPGRP, 0x100), 0);
}

#[test]
fn terminal_control_requests() {
    let mut t = TtyDevice::new();
    let (r, _) = tty_ioctl(&mut t, TIOCSPGRP, 0x100, IoctlInput::Pgrp(42));
    assert_eq!(r, SysCallResult::Success(0));
    let (_, out) = tty_ioctl(&mut t, TIOCGPGRP, 0x100, IoctlInput::Nothing);
    assert!(matches!(out, IoctlOutput::Int(42)));
    assert_eq!(tty_ioctl(&mut t, TIOCSCTTY, 0, IoctlInput::Nothing).0, SysCallResult::Success(0));
    assert!(t.is_controlling);
    let mut raw = Termios::new();
    raw.c_lflag = 0;
    t.process_input(b'q');
    t.write_output(b"out");
    assert_eq!(tty_ioctl(&mut t, TCSETSF, 0x100, IoctlInput::Termios(raw)).0, SysCallResult::Success(0));
    assert_eq!(t.termios.c_lflag, 0);
    let mut buf = [0u8; 4];
    assert_eq!(t.read_input(&mut buf), 0);
    assert!(t.flush_output().is_empty());
    // Without echo the byte is buffered but not echoed.
    assert_eq!(t.process_input(b'z'), None);
    t.write_output(b"x");
    assert_eq!(tty_ioctl(&mut t, TCFLSH, 1, IoctlInput::Nothing).0, SysCallResult::Success(0));
    assert!(t.flush_output().is_empty());
    assert_eq!(t.read_input(&mut buf), 1);
    assert_eq!(tty_ioctl(&mut t, 0x9999, 0x100, IoctlInput::Nothing).0, SysCallResult::Error(ENOSYS));
    assert_eq!(t.flush_queue(2), SysCallResult::Success(0));
    assert_eq!(t.flush_queue(7), SysCallResult::Error(EINVAL));
}

#[test]
fn boot_stage_device_calls() {
    assert_eq!(boot::handle_device_syscall(&call(SYS_GETDEVICES, 0, 0, 0, 0)), SysCallResult::Success(0));
    assert_eq!(boot::handle_device_syscall(&call(SYS_IOCTL, 1, 0x5413, 0x100, 0)), SysCallResult::Error(ENOSYS));
    assert_eq!(boot::handle_device_syscall(&call(SYS_PIPE2, 0, 0, 0, 0)), SysCallResult::Error(ENOSYS));
}
