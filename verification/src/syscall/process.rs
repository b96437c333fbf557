//! Process table and process-management system calls.
use vstd::prelude::*;
use super::{SysCallResult, SyscallArgs, ECHILD, ENOMEM, ENOSYS};

verus! {

pub const SYS_EXIT: usize = 93;
pub const SYS_EXIT_GROUP: usize = 94;
pub const SYS_WAITID: usize = 95;
pub const SYS_KILL: usize = 129;
pub const SYS_TKILL: usize = 130;
pub const SYS_TGKILL: usize = 131;
pub const SYS_RT_SIGACTION: usize = 134;
pub const SYS_SCHED_YIELD: usize = 124;
pub const SYS_NANOSLEEP: usize = 101;
pub const SYS_SETGID: usize = 144;
pub const SYS_SETUID: usize = 146;
pub const SYS_GETPGID: usize = 155;
pub const SYS_SETPGID: usize = 154;
pub const SYS_SETSID: usize = 157;
pub const SYS_PRCTL: usize = 167;
pub const SYS_GETPID: usize = 172;
pub const SYS_GETPPID: usize = 173;
pub const SYS_GETUID: usize = 174;
pub const SYS_GETEUID: usize = 175;
pub const SYS_GETGID: usize = 176;
pub const SYS_GETEGID: usize = 177;
pub const SYS_GETTID: usize = 178;
pub const SYS_CLONE: usize = 220;
pub const SYS_EXECVE: usize = 221;
pub const SYS_WAIT4: usize = 260;
pub const SYS_FORK: usize = SYS_CLONE;

/// Most entries of the process table.
pub const MAX_PROCESSES: usize = 64;

#[derive(Debug, Clone, Copy, PartialEq, Eq, Structural)]
pub enum ProcessState {
    Running,
    Waiting,
    /// Exited; the parent has not collected the exit status.
    Zombie,
    Unused,
}

#[derive(Debug, Clone, Copy, PartialEq, Eq, Structural)]
pub struct Process {
    pub pid: i32,
    pub ppid: i32,
    pub state: ProcessState,
    pub exit_code: Option<i32>,
    pub memory_base: Option<usize>,
    pub memory_size: Option<usize>,
}

impl Process {
    pub fn new() -> (p: Self)
        ensures
            p == (Process { pid: 0, ppid: 0, state: ProcessState::Unused, exit_code: None, memory_base: None, memory_size: None }),
    {
        Process { pid: 0, ppid: 0, state: ProcessState::Unused, exit_code: None, memory_base: None, memory_size: None }
    }

    pub fn new_with_pid(pid: i32, ppid: i32) -> (p: Self)
        ensures
            p == Process::running(pid, ppid),
    {
        Process { pid, ppid, state: ProcessState::Running, exit_code: None, memory_base: None, memory_size: None }
    }

    /// A running process with no memory yet.
    pub open spec fn running(pid: i32, ppid: i32) -> Process {
        Process { pid, ppid, state: ProcessState::Running, exit_code: None, memory_base: None, memory_size: None }
    }
}

/// The entries of a process table, in order.
pub uninterp spec fn process_table(v: heapless::Vec<Process, 64>) -> Seq<Process>;

/// An empty table (`heapless::Vec::new`).
#[verifier::external_body]
fn table_new() -> (v: heapless::Vec<Process, 64>)
    ensures
        process_table(v) == Seq::<Process>::empty(),
{
    heapless::Vec::new()
}

/// Appends an entry unless the table is full (`heapless::Vec::push`).
#[verifier::external_body]
fn table_push(v: &mut heapless::Vec<Process, 64>, p: Process) -> (ok: bool)
    requires
        process_table(*old(v)).len() <= 64,
    ensures
        ok == (process_table(*old(v)).len() < 64),
        ok ==> process_table(*final(v)) == process_table(*old(v)).push(p),
        !ok ==> process_table(*final(v)) == process_table(*old(v)),
{
    v.push(p).is_ok()
}

/// Number of entries (`heapless::Vec::len`).
#[verifier::external_body]
fn table_len(v: &heapless::Vec<Process, 64>) -> (n: usize)
    ensures
        n == process_table(*v).len(),
{
    v.len()
}

/// Entry `i` (slice indexing).
#[verifier::external_body]
fn table_get(v: &heapless::Vec<Process, 64>, i: usize) -> (p: Process)
    requires
        i < process_table(*v).len(),
    ensures
        p == process_table(*v)[i as int],
{
    v[i]
}

/// Replaces entry `i` (slice indexing).
#[verifier::external_body]
fn table_set(v: &mut heapless::Vec<Process, 64>, i: usize, p: Process)
    requires
        i < process_table(*old(v)).len(),
    ensures
        process_table(*final(v)) == process_table(*old(v)).update(i as int, p),
{
    v[i] = p;
}

/// The first index of `s` from which `f` holds, if any.
pub open spec fn first_index(s: Seq<Process>, f: spec_fn(Process) -> bool) -> Option<int> {
    if exists|i: int| 0 <= i < s.len() && f(s[i]) {
        Some(choose|i: int| 0 <= i < s.len() && f(s[i]) && forall|j: int| 0 <= j < i ==> !f(s[j]))
    } else {
        None
    }
}

/// The process table with the allocation of process ids.
pub struct ProcessManager {
    processes: heapless::Vec<Process, 64>,
    next_pid: i32,
    current_pid: i32,
}

impl ProcessManager {
    /// The entries of the table.
    pub closed spec fn table(&self) -> Seq<Process> {
        process_table(self.processes)
    }

    pub closed spec fn spec_next_pid(&self) -> i32 {
        self.next_pid
    }

    pub closed spec fn spec_current_pid(&self) -> i32 {
        self.current_pid
    }

    /// The table is bounded, and every id in it was handed out before the
    /// next one.
    pub open spec fn wf(&self) -> bool {
        &&& self.table().len() <= MAX_PROCESSES
        &&& forall|i: int| 0 <= i < self.table().len() ==> #[trigger] self.table()[i].pid < self.spec_next_pid()
    }

    /// A table holding the init process (pid 1, the shell), which is current;
    /// the next id handed out is 2.
    pub fn new() -> (pm: Self)
        ensures
            pm.wf(),
            pm.table() == seq![Process::running(1, 0)],
            pm.spec_next_pid() == 2,
            pm.spec_current_pid() == 1,
    {
        let mut processes = table_new();
        let _ = table_push(&mut processes, Process::new_with_pid(1, 0));
        ProcessManager { processes, next_pid: 2, current_pid: 1 }
    }

    /// Hands out the next process id.
    pub fn allocate_pid(&mut self) -> (pid: i32)
        requires
            old(self).spec_next_pid() < i32::MAX,
        ensures
            pid == old(self).spec_next_pid(),
            final(self).spec_next_pid() == old(self).spec_next_pid() + 1,
            final(self).table() == old(self).table(),
            final(self).spec_current_pid() == old(self).spec_current_pid(),
    {
        let pid = self.next_pid;
        self.next_pid = self.next_pid + 1;
        pid
    }

    /// Creates a running child of `ppid` with a fresh id, unless the table is
    /// full.
    pub fn create_process(&mut self, ppid: i32) -> (r: Option<i32>)
        requires
            old(self).wf(),
            old(self).spec_next_pid() < i32::MAX,
        ensures
            final(self).wf(),
            final(self).spec_current_pid() == old(self).spec_current_pid(),
            old(self).table().len() >= MAX_PROCESSES ==> r.is_none() && *final(self) == *old(self),
            old(self).table().len() < MAX_PROCESSES ==> {
                &&& r == Some(old(self).spec_next_pid())
                &&& forall|j: int| 0 <= j < old(self).table().len() ==> old(self).table()[j].pid != old(self).spec_next_pid()
                &&& final(self).spec_next_pid() == old(self).spec_next_pid() + 1
                &&& final(self).table() == old(self).table().push(Process::running(old(self).spec_next_pid(), ppid))
            },
    {
        if table_len(&self.processes) >= MAX_PROCESSES {
            return None;
        }
        let pid = self.allocate_pid();
        let process = Process::new_with_pid(pid, ppid);
        let ok = table_push(&mut self.processes, process);
        if !ok {
            return None;
        }
        Some(pid)
    }

    /// Index of the first process with id `pid`.
    fn find(&self, pid: i32) -> (r: Option<usize>)
        ensures
            match r {
                Some(i) => i < self.table().len() && self.table()[i as int].pid == pid
                    && forall|j: int| 0 <= j < i ==> self.table()[j].pid != pid,
                None => forall|j: int| 0 <= j < self.table().len() ==> self.table()[j].pid != pid,
            },
    {
        let n = table_len(&self.processes);
        let mut i: usize = 0;
        while i < n
            invariant
                n == self.table().len(),
                0 <= i <= n,
                forall|j: int| 0 <= j < i ==> self.table()[j].pid != pid,
            decreases n - i,
        {
            if table_get(&self.processes, i).pid == pid {
                return Some(i);
            }
            i = i + 1;
        }
        None
    }

    /// The first process with id `pid`, if any.
    pub fn get_process(&self, pid: i32) -> (r: Option<Process>)
        ensures
            match r {
                Some(p) => exists|i: int| 0 <= i < self.table().len() && self.table()[i] == p && p.pid == pid
                    && forall|j: int| 0 <= j < i ==> self.table()[j].pid != pid,
                None => forall|j: int| 0 <= j < self.table().len() ==> self.table()[j].pid != pid,
            },
    {
        match self.find(pid) {
            Some(i) => Some(table_get(&self.processes, i)),
            None => None,
        }
    }

    /// Marks the first process with id `pid` a zombie holding `exit_code`.
    pub fn exit_process(&mut self, pid: i32, exit_code: i32)
        requires
            old(self).wf(),
        ensures
            final(self).wf(),
            final(self).spec_next_pid() == old(self).spec_next_pid(),
            final(self).spec_current_pid() == old(self).spec_current_pid(),
            final(self).table().len() == old(self).table().len(),
            (forall|j: int| 0 <= j < old(self).table().len() ==> old(self).table()[j].pid != pid)
                ==> final(self).table() == old(self).table(),
            forall|i: int| 0 <= i < old(self).table().len() && old(self).table()[i].pid == pid
                && (forall|j: int| 0 <= j < i ==> old(self).table()[j].pid != pid)
                ==> final(self).table() == old(self).table().update(i, Process {
                    state: ProcessState::Zombie,
                    exit_code: Some(exit_code),
                    ..old(self).table()[i]
                }),
    {
        match self.find(pid) {
            Some(i) => {
                let p = table_get(&self.processes, i);
                table_set(&mut self.processes, i, Process { state: ProcessState::Zombie, exit_code: Some(exit_code), ..p });
            },
            None => {},
        }
    }

    /// Reaps the first zombie child of `parent_pid`: it becomes unused, and
    /// its id and exit code (-1 when none was recorded) are returned.
    pub fn wait_for_child(&mut self, parent_pid: i32) -> (r: Option<(i32, i32)>)
        requires
            old(self).wf(),
        ensures
            final(self).wf(),
            final(self).spec_next_pid() == old(self).spec_next_pid(),
            final(self).spec_current_pid() == old(self).spec_current_pid(),
            final(self).table().len() == old(self).table().len(),
            r.is_none() <==> forall|j: int| 0 <= j < old(self).table().len() ==>
                !(old(self).table()[j].ppid == parent_pid && old(self).table()[j].state == ProcessState::Zombie),
            r.is_none() ==> final(self).table() == old(self).table(),
            r matches Some((pid, code)) ==> exists|i: int| {
                &&& 0 <= i < old(self).table().len()
                &&& old(self).table()[i].ppid == parent_pid
                &&& old(self).table()[i].state == ProcessState::Zombie
                &&& forall|j: int| 0 <= j < i ==> !(old(self).table()[j].ppid == parent_pid
                        && old(self).table()[j].state == ProcessState::Zombie)
                &&& pid == old(self).table()[i].pid
                &&& code == (match old(self).table()[i].exit_code { Some(c) => c, None => -1i32 })
                &&& final(self).table() == old(self).table().update(i, Process {
                        state: ProcessState::Unused,
                        ..old(self).table()[i]
                    })
            },
    {
        let n = table_len(&self.processes);
        let mut i: usize = 0;
        while i < n
            invariant
                n == self.table().len(),
                old(self).wf(),
                self.table() == old(self).table(),
                self.next_pid == old(self).next_pid,
                self.current_pid == old(self).current_pid,
                0 <= i <= n,
                forall|j: int| 0 <= j < i ==> !(self.table()[j].ppid == parent_pid
                    && self.table()[j].state == ProcessState::Zombie),
            decreases n - i,
        {
            let p = table_get(&self.processes, i);
            if p.ppid == parent_pid && p.state == ProcessState::Zombie {
                let exit_code = match p.exit_code {
                    Some(c) => c,
                    None => -1,
                };
                table_set(&mut self.processes, i, Process { state: ProcessState::Unused, ..p });
                return Some((p.pid, exit_code));
            }
            i = i + 1;
        }
        None
    }

    pub fn get_current_pid(&self) -> (pid: i32)
        ensures
            pid == self.spec_current_pid(),
    {
        self.current_pid
    }

    pub fn set_current_pid(&mut self, pid: i32)
        ensures
            final(self).spec_current_pid() == pid,
            final(self).table() == old(self).table(),
            final(self).spec_next_pid() == old(self).spec_next_pid(),
    {
        self.current_pid = pid;
    }
}

/// Process ids stay unique: a table whose ids are distinct and below the
/// next id to hand out keeps both properties when a process with that id
/// is added (as `create_process` does).
pub proof fn law_new_pid_is_fresh(t: Seq<Process>, next_pid: i32, ppid: i32)
    requires
        forall|i: int| 0 <= i < t.len() ==> #[trigger] t[i].pid < next_pid,
        forall|i: int, j: int| 0 <= i < j < t.len() ==> t[i].pid != t[j].pid,
        next_pid < i32::MAX,
    ensures
        ({
            let t2 = t.push(Process::running(next_pid, ppid));
            &&& forall|i: int| 0 <= i < t2.len() ==> #[trigger] t2[i].pid < next_pid + 1
            &&& forall|i: int, j: int| 0 <= i < j < t2.len() ==> t2[i].pid != t2[j].pid
        }),
{
    let t2 = t.push(Process::running(next_pid, ppid));
    assert forall|i: int, j: int| 0 <= i < j < t2.len() implies t2[i].pid != t2[j].pid by {
        if j == t.len() {
            assert(t2[i] == t[i]);
        } else {
            assert(t2[i] == t[i] && t2[j] == t[j]);
        }
    }
    assert forall|i: int| 0 <= i < t2.len() implies #[trigger] t2[i].pid < next_pid + 1 by {
        if i < t.len() {
            assert(t2[i] == t[i]);
        }
    }
}

/// What a process call did besides its result: the exit of the current
/// program (with its code), or a status to store at a user address.
#[derive(Debug, Clone, Copy, PartialEq, Eq, Structural)]
pub enum ProcessEffect {
    Nothing,
    Exited(i32),
    StoreStatus(usize, i32),
}

/// `exit`: the current process becomes a zombie; unless it is init, its
/// parent becomes current. The caller returns to the shell.
pub fn sys_exit(pm: &mut ProcessManager, exit_code: isize) -> (r: (SysCallResult, ProcessEffect))
    requires
        old(pm).wf(),
    ensures
        final(pm).wf(),
        r == (SysCallResult::Success(exit_code), ProcessEffect::Exited(exit_code as i32)),
        final(pm).spec_next_pid() == old(pm).spec_next_pid(),
{
    let current_pid = pm.get_current_pid();
    pm.exit_process(current_pid, exit_code as i32);
    if current_pid != 1 {
        match pm.get_process(current_pid) {
            Some(process) => pm.set_current_pid(process.ppid),
            None => {},
        }
    }
    (SysCallResult::Success(exit_code), ProcessEffect::Exited(exit_code as i32))
}

/// `fork`: a running child of the current process; a full table is `ENOMEM`.
pub fn sys_fork(pm: &mut ProcessManager) -> (r: SysCallResult)
    requires
        old(pm).wf(),
        old(pm).spec_next_pid() < i32::MAX,
    ensures
        final(pm).wf(),
        old(pm).table().len() >= MAX_PROCESSES ==> r == SysCallResult::Error(ENOMEM),
        old(pm).table().len() < MAX_PROCESSES ==> r == SysCallResult::Success(old(pm).spec_next_pid() as isize)
            && final(pm).table() == old(pm).table().push(Process::running(old(pm).spec_next_pid(), old(pm).spec_current_pid())),
{
    let current_pid = pm.get_current_pid();
    match pm.create_process(current_pid) {
        Some(child_pid) => SysCallResult::Success(child_pid as isize),
        None => SysCallResult::Error(ENOMEM),
    }
}

/// `getppid`: the parent of the current process, 0 when it is not in the
/// table.
pub fn sys_getppid(pm: &ProcessManager) -> (r: SysCallResult)
    ensures
        match first_index(pm.table(), |p: Process| p.pid == pm.spec_current_pid()) {
            Some(i) => r == SysCallResult::Success(pm.table()[i].ppid as isize),
            None => r == SysCallResult::Success(0),
        },
{
    let current_pid = pm.get_current_pid();
    let ghost f = |p: Process| p.pid == pm.spec_current_pid();
    match pm.get_process(current_pid) {
        Some(process) => {
            proof {
                let i = choose|i: int| 0 <= i < pm.table().len() && pm.table()[i] == process && process.pid == current_pid
                    && forall|j: int| 0 <= j < i ==> pm.table()[j].pid != current_pid;
                assert(f(pm.table()[i]));
                let k = first_index(pm.table(), f).unwrap();
                assert(k == i) by {
                    if k < i { assert(f(pm.table()[k])); }
                    if i < k { assert(!f(pm.table()[i])); }
                }
            }
            SysCallResult::Success(process.ppid as isize)
        },
        None => {
            assert(first_index(pm.table(), f).is_none());
            SysCallResult::Success(0)
        },
    }
}

/// `wait4`: reaps a zombie child of the current process; its exit code is
/// stored at `status` when that is not null. No zombie child is `ECHILD`.
pub fn sys_wait4(pm: &mut ProcessManager, status: usize) -> (r: (SysCallResult, ProcessEffect))
    requires
        old(pm).wf(),
    ensures
        final(pm).wf(),
        final(pm).spec_current_pid() == old(pm).spec_current_pid(),
        (forall|j: int| 0 <= j < old(pm).table().len() ==> !(old(pm).table()[j].ppid == old(pm).spec_current_pid()
            && old(pm).table()[j].state == ProcessState::Zombie))
            <==> r == (SysCallResult::Error(ECHILD), ProcessEffect::Nothing),
        r.0 matches SysCallResult::Success(pid) ==> exists|i: int| 0 <= i < old(pm).table().len()
            && old(pm).table()[i].pid == pid
            && old(pm).table()[i].ppid == old(pm).spec_current_pid()
            && old(pm).table()[i].state == ProcessState::Zombie
            && final(pm).table()[i].state == ProcessState::Unused,
{
    let current_pid = pm.get_current_pid();
    match pm.wait_for_child(current_pid) {
        Some((child_pid, exit_code)) => {
            let effect = if status != 0 { ProcessEffect::StoreStatus(status, exit_code) } else { ProcessEffect::Nothing };
            (SysCallResult::Success(child_pid as isize), effect)
        },
        None => (SysCallResult::Error(ECHILD), ProcessEffect::Nothing),
    }
}

/// Dispatches a process call. Unimplemented calls answer `ENOSYS` or a
/// fixed value as listed.
pub fn handle_process_syscall(pm: &mut ProcessManager, syscall_num: usize, args: &SyscallArgs) -> (r: (SysCallResult, ProcessEffect))
    requires
        old(pm).wf(),
        old(pm).spec_next_pid() < i32::MAX,
    ensures
        final(pm).wf(),
        syscall_num == SYS_EXIT ==> r == (SysCallResult::Success(args.arg0 as isize), ProcessEffect::Exited(args.arg0 as isize as i32)),
        syscall_num == SYS_EXIT_GROUP ==> r == (SysCallResult::Success(args.arg0 as i32 as isize), ProcessEffect::Exited(args.arg0 as i32)),
        syscall_num == SYS_GETPID ==> r == (SysCallResult::Success(old(pm).spec_current_pid() as isize), ProcessEffect::Nothing)
            && *final(pm) == *old(pm),
        syscall_num == SYS_FORK ==> r.1 == ProcessEffect::Nothing,
        syscall_num == SYS_EXECVE ==> r == (SysCallResult::Success(0), ProcessEffect::Nothing),
        (syscall_num == SYS_GETUID || syscall_num == SYS_GETGID || syscall_num == SYS_GETEUID
            || syscall_num == SYS_GETEGID || syscall_num == SYS_SCHED_YIELD)
            ==> r == (SysCallResult::Success(0), ProcessEffect::Nothing),
        syscall_num == SYS_GETPGID ==> r == (SysCallResult::Success(1), ProcessEffect::Nothing),
        (syscall_num == SYS_WAITID || syscall_num == SYS_KILL || syscall_num == SYS_SETUID || syscall_num == SYS_SETGID
            || syscall_num == SYS_SETSID || syscall_num == SYS_SETPGID || syscall_num == SYS_NANOSLEEP
            || syscall_num == SYS_PRCTL)
            ==> r == (SysCallResult::Error(ENOSYS), ProcessEffect::Nothing),
{
    match syscall_num {
        SYS_EXIT => sys_exit(pm, args.arg0 as isize),
        SYS_EXIT_GROUP => sys_exit(pm, args.arg0 as i32 as isize),
        SYS_GETPID => (SysCallResult::Success(pm.get_current_pid() as isize), ProcessEffect::Nothing),
        SYS_GETPPID => (sys_getppid(pm), ProcessEffect::Nothing),
        SYS_FORK => (sys_fork(pm), ProcessEffect::Nothing),
        SYS_EXECVE => (SysCallResult::Success(0), ProcessEffect::Nothing),
        SYS_WAITID => (SysCallResult::Error(ENOSYS), ProcessEffect::Nothing),
        SYS_WAIT4 => sys_wait4(pm, args.arg1),
        SYS_KILL => (SysCallResult::Error(ENOSYS), ProcessEffect::Nothing),
        SYS_GETUID => (SysCallResult::Success(0), ProcessEffect::Nothing),
        SYS_GETGID => (SysCallResult::Success(0), ProcessEffect::Nothing),
        SYS_SETUID => (SysCallResult::Error(ENOSYS), ProcessEffect::Nothing),
        SYS_SETGID => (SysCallResult::Error(ENOSYS), ProcessEffect::Nothing),
        SYS_GETEUID => (SysCallResult::Success(0), ProcessEffect::Nothing),
        SYS_GETEGID => (SysCallResult::Success(0), ProcessEffect::Nothing),
        SYS_SETSID => (SysCallResult::Error(ENOSYS), ProcessEffect::Nothing),
        SYS_GETPGID => (SysCallResult::Success(1), ProcessEffect::Nothing),
        SYS_SETPGID => (SysCallResult::Error(ENOSYS), ProcessEffect::Nothing),
        SYS_SCHED_YIELD => (SysCallResult::Success(0), ProcessEffect::Nothing),
        SYS_NANOSLEEP => (SysCallResult::Error(ENOSYS), ProcessEffect::Nothing),
        SYS_PRCTL => (SysCallResult::Error(ENOSYS), ProcessEffect::Nothing),
        _ => (SysCallResult::Error(ENOSYS), ProcessEffect::Nothing),
    }
}

} // verus!
