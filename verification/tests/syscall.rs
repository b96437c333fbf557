use elinos::syscall::device::{
    init_tty_devices, sys_ioctl, IoctlInput, IoctlOutput, TtyDevice, Winsize, ECHO, FIONREAD, MAX_TTYS, TCFLSH, TCGETS,
    TIOCGWINSZ, TIOCSWINSZ,
};
use elinos::syscall::{EINVAL, ENOTTY};
use elinos::syscall::memory::BrkState;
use elinos::syscall::process::{sys_exit, sys_fork, sys_getppid, ProcessEffect, ProcessManager, ProcessState};
use elinos::syscall::SysCallResult;

#[test]
fn init_process_and_first_fork() {
    let mut pm = ProcessManager::new();
    assert_eq!(pm.get_current_pid(), 1);
    let init = pm.get_process(1).unwrap();
    assert_eq!(init.state, ProcessState::Running);
    // Init holds pid 1, so the first child is given pid 2.
    assert_eq!(sys_fork(&mut pm), SysCallResult::Success(2));
    assert_eq!(sys_fork(&mut pm), SysCallResult::Success(3));
    assert_eq!(pm.get_process(2).unwrap().ppid, 1);
    assert_eq!(sys_getppid(&pm), SysCallResult::Success(0));
}

#[test]
fn exit_then_wait_reaps_the_child() {
    let mut pm = ProcessManager::new();
    assert_eq!(pm.allocate_pid(), 2);
    let child = pm.create_process(1).unwrap();
    assert_eq!(child, 3);
    pm.set_current_pid(child);
    assert_eq!(sys_getppid(&pm), SysCallResult::Success(1));
    let (r, effect) = sys_exit(&mut pm, 7);
    assert_eq!(r, SysCallResult::Success(7));
    assert_eq!(effect, ProcessEffect::Exited(7));
    assert_eq!(pm.get_current_pid(), 1);
    assert_eq!(pm.get_process(3).unwrap().state, ProcessState::Zombie);
    assert_eq!(pm.wait_for_child(1), Some((3, 7)));
    assert_eq!(pm.get_process(3).unwrap().state, ProcessState::Unused);
    assert_eq!(pm.wait_for_child(1), None);
}

#[test]
fn brk_grows_the_heap() {
    let mut b = BrkState::new();
    assert!(b.brk_allocation(0).is_some());
    assert_eq!(b.sys_brk(0, Some(0x9000_0000)), SysCallResult::Success(0x9000_0000));
    assert_eq!(b.brk_allocation(0x9000_1000), Some(0x1000));
    assert_eq!(b.brk_allocation(0x8000_0000), None);
}

#[test]
fn tty_echoes_and_buffers_input() {
    let mut t = TtyDevice::new();
    assert!(t.termios.c_lflag & ECHO != 0);
    assert_eq!(t.process_input(b'h'), Some(b'h'));
    assert_eq!(t.process_input(b'\r'), Some(b'\n'));
    let mut buf = [0u8; 8];
    assert_eq!(t.read_input(&mut buf), 2);
    assert_eq!(&buf[..2], b"h\n");
    assert_eq!(t.write_output(b"ok"), 2);
    let out = t.flush_output();
    assert_eq!(&out[..], b"ok");
}

#[test]
fn terminals_are_set_up_once() {
    let mut ttys: Vec<TtyDevice> = Vec::new();
    let mut ready = false;
    init_tty_devices(&mut ttys, &mut ready);
    assert!(ready);
    assert_eq!(ttys.len(), 1);
    assert_eq!(ttys[0].pgrp, 0);
    init_tty_devices(&mut ttys, &mut ready);
    assert_eq!(ttys.len(), 1);
    let mut full: Vec<TtyDevice> = (0..MAX_TTYS).map(|_| TtyDevice::new()).collect();
    let mut ready = false;
    init_tty_devices(&mut full, &mut ready);
    assert!(ready);
    assert_eq!(full.len(), MAX_TTYS);
}

#[test]
fn ioctl_on_the_console_terminal() {
    let mut ttys: Vec<TtyDevice> = Vec::new();
    let mut ready = false;
    let (r, out) = sys_ioctl(&mut ttys, &mut ready, 1, TCGETS, 0x1000, IoctlInput::Nothing);
    assert_eq!(r, SysCallResult::Success(0));
    assert!(matches!(out, IoctlOutput::Termios(t) if t.c_lflag & ECHO != 0));
    assert_eq!(ttys.len(), 1);
    let w = Winsize { ws_row: 50, ws_col: 132, ws_xpixel: 0, ws_ypixel: 0 };
    let (r, _) = sys_ioctl(&mut ttys, &mut ready, 0, TIOCSWINSZ, 0x1000, IoctlInput::Winsize(w));
    assert_eq!(r, SysCallResult::Success(0));
    let (_, out) = sys_ioctl(&mut ttys, &mut ready, 2, TIOCGWINSZ, 0x1000, IoctlInput::Nothing);
    assert!(matches!(out, IoctlOutput::Winsize(got) if got == w));
    ttys[0].process_input(b'x');
    let (_, out) = sys_ioctl(&mut ttys, &mut ready, 0, FIONREAD, 0x1000, IoctlInput::Nothing);
    assert!(matches!(out, IoctlOutput::Int(1)));
    assert_eq!(sys_ioctl(&mut ttys, &mut ready, 0, TCFLSH, 3, IoctlInput::Nothing).0, SysCallResult::Error(EINVAL));
    assert_eq!(sys_ioctl(&mut ttys, &mut ready, 0, TCFLSH, 0, IoctlInput::Nothing).0, SysCallResult::Success(0));
    let (_, out) = sys_ioctl(&mut ttys, &mut ready, 0, FIONREAD, 0x1000, IoctlInput::Nothing);
    assert!(matches!(out, IoctlOutput::Int(0)));
    assert_eq!(sys_ioctl(&mut ttys, &mut ready, 5, TCGETS, 0x1000, IoctlInput::Nothing).0, SysCallResult::Error(ENOTTY));
    assert_eq!(sys_ioctl(&mut ttys, &mut ready, 3, TIOCGWINSZ, 0x1000, IoctlInput::Nothing).0, SysCallResult::Error(ENOTTY));
    assert_eq!(sys_ioctl(&mut ttys, &mut ready, -1, TIOCGWINSZ, 0x1000, IoctlInput::Nothing).0, SysCallResult::Error(ENOTTY));
    assert_eq!(sys_ioctl(&mut ttys, &mut ready, 0, TCGETS, 0, IoctlInput::Nothing).0, SysCallResult::Error(EINVAL));
}
