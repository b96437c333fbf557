//! Terminal devices and device-management system calls.
use vstd::prelude::*;
use super::{SysCallResult, SyscallArgs, EINVAL, ENODEV, ENOSYS, ENOTTY};

verus! {

pub const TCGETS: usize = 0x5401;
pub const TCSETS: usize = 0x5402;
pub const TCSETSW: usize = 0x5403;
pub const TCSETSF: usize = 0x5404;
pub const TCFLSH: usize = 0x540B;
pub const TIOCSCTTY: usize = 0x540E;
pub const TIOCGPGRP: usize = 0x540F;
pub const TIOCSPGRP: usize = 0x5410;
pub const TIOCGWINSZ: usize = 0x5413;
pub const TIOCSWINSZ: usize = 0x5414;
pub const FIONREAD: usize = 0x541B;

pub const ICRNL: u32 = 0x0100;
pub const IXON: u32 = 0x0400;
pub const OPOST: u32 = 0x0001;
pub const ONLCR: u32 = 0x0004;
pub const ISIG: u32 = 0x0001;
pub const ICANON: u32 = 0x0002;
pub const ECHO: u32 = 0x0008;
pub const ECHOE: u32 = 0x0010;
pub const ECHOK: u32 = 0x0020;
pub const IEXTEN: u32 = 0x8000;

pub const VINTR: usize = 0;
pub const VQUIT: usize = 1;
pub const VERASE: usize = 2;
pub const VKILL: usize = 3;
pub const VEOF: usize = 4;
pub const VTIME: usize = 5;
pub const VMIN: usize = 6;
pub const VSTART: usize = 8;
pub const VSTOP: usize = 9;
pub const VSUSP: usize = 10;

pub const SYS_DUP: usize = 23;
pub const SYS_DUP3: usize = 24;
pub const SYS_FCNTL: usize = 25;
pub const SYS_INOTIFY_INIT1: usize = 26;
pub const SYS_INOTIFY_ADD_WATCH: usize = 27;
pub const SYS_INOTIFY_RM_WATCH: usize = 28;
pub const SYS_IOCTL: usize = 29;
pub const SYS_IOPRIO_SET: usize = 30;
pub const SYS_IOPRIO_GET: usize = 31;
pub const SYS_FLOCK: usize = 32;
pub const SYS_MKNODAT: usize = 33;
pub const SYS_PIPE2: usize = 59;
pub const SYS_GETDEVICES: usize = 950;

/// Capacity of each terminal buffer.
pub const TTY_BUFFER_SIZE: usize = 1024;

/// Terminal attributes.
#[derive(Debug, Clone, Copy)]
pub struct Termios {
    pub c_iflag: u32,
    pub c_oflag: u32,
    pub c_cflag: u32,
    pub c_lflag: u32,
    pub c_line: u8,
    pub c_cc: [u8; 32],
    pub c_ispeed: u32,
    pub c_ospeed: u32,
}

/// The default control characters: ^C, ^\, DEL, ^U, ^D, VTIME 0, VMIN 1,
/// ^Q, ^S, ^Z; the rest zero.
pub open spec fn default_cc(i: int) -> u8 {
    if i == VINTR { 3 } else if i == VQUIT { 28 } else if i == VERASE { 127 } else if i == VKILL { 21 }
    else if i == VEOF { 4 } else if i == VMIN { 1 } else if i == VSTART { 17 } else if i == VSTOP { 19 }
    else if i == VSUSP { 26 } else { 0 }
}

/// The attributes a terminal starts with: canonical mode with echo at 9600
/// baud, CR mapped to NL on input and NL to CR-NL on output, the default
/// control characters.
pub open spec fn default_termios(t: Termios) -> bool {
    &&& t.c_iflag == ICRNL | IXON
    &&& t.c_oflag == OPOST | ONLCR
    &&& t.c_cflag == 0
    &&& t.c_lflag == ISIG | ICANON | ECHO | ECHOE | ECHOK | IEXTEN
    &&& t.c_line == 0
    &&& t.c_ispeed == 9600
    &&& t.c_ospeed == 9600
    &&& forall|i: int| 0 <= i < 32 ==> #[trigger] t.c_cc@[i] == default_cc(i)
}

impl Termios {
    /// Canonical mode with echo at 9600 baud, CR mapped to NL on input and NL
    /// to CR-NL on output.
    pub fn new() -> (t: Self)
        ensures
            default_termios(t),
    {
        let mut termios = Termios {
            c_iflag: ICRNL | IXON,
            c_oflag: OPOST | ONLCR,
            c_cflag: 0,
            c_lflag: ISIG | ICANON | ECHO | ECHOE | ECHOK | IEXTEN,
            c_line: 0,
            c_cc: [0u8; 32],
            c_ispeed: 9600,
            c_ospeed: 9600,
        };
        termios.c_cc[VINTR] = 3;
        termios.c_cc[VQUIT] = 28;
        termios.c_cc[VERASE] = 127;
        termios.c_cc[VKILL] = 21;
        termios.c_cc[VEOF] = 4;
        termios.c_cc[VSTART] = 17;
        termios.c_cc[VSTOP] = 19;
        termios.c_cc[VSUSP] = 26;
        termios.c_cc[VMIN] = 1;
        termios.c_cc[VTIME] = 0;
        termios
    }
}

/// Terminal window size.
#[derive(Debug, Clone, Copy, PartialEq, Eq, Structural)]
pub struct Winsize {
    pub ws_row: u16,
    pub ws_col: u16,
    pub ws_xpixel: u16,
    pub ws_ypixel: u16,
}

impl Winsize {
    /// 24 rows of 80 columns.
    pub fn new() -> (w: Self)
        ensures
            w == (Winsize { ws_row: 24, ws_col: 80, ws_xpixel: 0, ws_ypixel: 0 }),
    {
        Winsize { ws_row: 24, ws_col: 80, ws_xpixel: 0, ws_ypixel: 0 }
    }
}

/// The bytes of a terminal buffer, in order.
pub uninterp spec fn tty_bytes(v: heapless::Vec<u8, 1024>) -> Seq<u8>;

/// An empty buffer (`heapless::Vec::new`).
#[verifier::external_body]
fn buf_new() -> (v: heapless::Vec<u8, 1024>)
    ensures
        tty_bytes(v) == Seq::<u8>::empty(),
{
    heapless::Vec::new()
}

/// Appends a byte unless the buffer is full (`heapless::Vec::push`).
#[verifier::external_body]
fn buf_push(v: &mut heapless::Vec<u8, 1024>, b: u8) -> (ok: bool)
    requires
        tty_bytes(*old(v)).len() <= 1024,
    ensures
        ok == (tty_bytes(*old(v)).len() < 1024),
        tty_bytes(*final(v)) == push_bounded(tty_bytes(*old(v)), b),
{
    v.push(b).is_ok()
}

/// Removes and returns the last byte (`heapless::Vec::pop`).
#[verifier::external_body]
fn buf_pop(v: &mut heapless::Vec<u8, 1024>) -> (r: Option<u8>)
    ensures
        tty_bytes(*old(v)).len() == 0 ==> r.is_none() && tty_bytes(*final(v)) == tty_bytes(*old(v)),
        tty_bytes(*old(v)).len() > 0 ==> r == Some(tty_bytes(*old(v)).last())
            && tty_bytes(*final(v)) == tty_bytes(*old(v)).drop_last(),
{
    v.pop()
}

/// Number of bytes (`heapless::Vec::len`).
#[verifier::external_body]
fn buf_len(v: &heapless::Vec<u8, 1024>) -> (n: usize)
    ensures
        n == tty_bytes(*v).len(),
{
    v.len()
}

/// Byte `i` (slice indexing).
#[verifier::external_body]
fn buf_get(v: &heapless::Vec<u8, 1024>, i: usize) -> (b: u8)
    requires
        i < tty_bytes(*v).len(),
    ensures
        b == tty_bytes(*v)[i as int],
{
    v[i]
}

/// Removes the first byte (`heapless::Vec::remove(0)`, which shifts the
/// rest down).
#[verifier::external_body]
fn buf_remove_first(v: &mut heapless::Vec<u8, 1024>) -> (b: u8)
    requires
        tty_bytes(*old(v)).len() > 0,
    ensures
        b == tty_bytes(*old(v))[0],
        tty_bytes(*final(v)) == tty_bytes(*old(v)).drop_first(),
{
    v.remove(0)
}

/// Removes the first `n` bytes.
fn buf_remove_front(v: &mut heapless::Vec<u8, 1024>, n: usize)
    requires
        n <= tty_bytes(*old(v)).len(),
    ensures
        tty_bytes(*final(v)) == tty_bytes(*old(v)).skip(n as int),
{
    let mut k: usize = 0;
    while k < n
        invariant
            k <= n,
            n <= tty_bytes(*old(v)).len(),
            tty_bytes(*v) == tty_bytes(*old(v)).skip(k as int),
        decreases n - k,
    {
        let _ = buf_remove_first(v);
        assert(tty_bytes(*old(v)).skip(k as int).drop_first() =~= tty_bytes(*old(v)).skip(k + 1));
        k = k + 1;
    }
}

/// Empties the buffer (`heapless::Vec::clear`).
#[verifier::external_body]
fn buf_clear(v: &mut heapless::Vec<u8, 1024>)
    ensures
        tty_bytes(*final(v)) == Seq::<u8>::empty(),
{
    v.clear()
}

/// Reverses the buffer (`<[u8]>::reverse`).
#[verifier::external_body]
fn buf_reverse(v: &mut heapless::Vec<u8, 1024>)
    ensures
        tty_bytes(*final(v)) == tty_bytes(*old(v)).reverse(),
{
    v.reverse()
}

/// `s` with `b` appended when there is room.
pub open spec fn push_bounded(s: Seq<u8>, b: u8) -> Seq<u8> {
    if s.len() < TTY_BUFFER_SIZE { s.push(b) } else { s }
}

/// The byte that input `byte` stores: CR becomes NL in canonical mode with
/// `ICRNL`.
pub open spec fn input_byte(t: Termios, byte: u8) -> u8 {
    if t.c_lflag & ICANON != 0 && byte == 0x0D && t.c_iflag & ICRNL != 0 { 0x0A } else { byte }
}

/// The output buffer after writing `b`: NL becomes CR-NL with `OPOST` and
/// `ONLCR`.
pub open spec fn output_after(out: Seq<u8>, t: Termios, b: u8) -> Seq<u8> {
    if t.c_oflag & OPOST != 0 && b == 0x0A && t.c_oflag & ONLCR != 0 {
        push_bounded(push_bounded(out, 0x0D), 0x0A)
    } else {
        push_bounded(out, b)
    }
}

/// Output post-processing: with `OPOST` and `ONLCR`, writing a line feed
/// appends exactly a carriage return and then the line feed (when both
/// fit); any other byte, or any byte without both flags, is appended as it
/// is. Writing one line feed into a buffer with room takes one byte and
/// adds those two.
pub proof fn law_onlcr_output(out: Seq<u8>, t: Termios, b: u8)
    requires
        out.len() + 2 <= TTY_BUFFER_SIZE,
    ensures
        t.c_oflag & OPOST != 0 && t.c_oflag & ONLCR != 0 && b == 0x0A
            ==> output_after(out, t, b) == out + seq![0x0Du8, 0x0Au8],
        !(t.c_oflag & OPOST != 0 && t.c_oflag & ONLCR != 0 && b == 0x0A) ==> output_after(out, t, b) == out.push(b),
        t.c_oflag & OPOST != 0 && t.c_oflag & ONLCR != 0 ==> write_all(out, t, seq![0x0Au8])
            == (out + seq![0x0Du8, 0x0Au8], 1nat),
{
    assert(out.push(0x0Du8).push(0x0Au8) =~= out + seq![0x0Du8, 0x0Au8]);
    if t.c_oflag & OPOST != 0 && t.c_oflag & ONLCR != 0 {
        let d = seq![0x0Au8];
        assert(d[0] == 0x0Au8);
        assert(d.skip(1) =~= Seq::<u8>::empty());
        let o = output_after(out, t, d[0]);
        assert(write_all(o, t, d.skip(1)) == (o, 0nat));
    }
}

/// The output buffer and the number of bytes taken after writing `data` from
/// `out`: bytes are taken until the buffer is full.
pub open spec fn write_all(out: Seq<u8>, t: Termios, data: Seq<u8>) -> (Seq<u8>, nat)
    decreases data.len(),
{
    if data.len() == 0 || out.len() >= TTY_BUFFER_SIZE {
        (out, 0)
    } else {
        let (o, n) = write_all(output_after(out, t, data[0]), t, data.skip(1));
        (o, n + 1)
    }
}

/// How many buffered input bytes a read of at most `max` bytes takes: in
/// canonical mode it stops after the first NL.
pub open spec fn read_count(input: Seq<u8>, canonical: bool, max: int) -> int {
    let m = if max < input.len() { max } else { input.len() as int };
    if canonical && exists|i: int| 0 <= i < m && input[i] == 0x0A {
        (choose|i: int| 0 <= i < m && input[i] == 0x0A && forall|j: int| 0 <= j < i ==> input[j] != 0x0A) + 1
    } else {
        m
    }
}

/// A terminal: attributes, window size, process group and buffers.
pub struct TtyDevice {
    pub termios: Termios,
    pub winsize: Winsize,
    pub pgrp: i32,
    pub input_buffer: heapless::Vec<u8, 1024>,
    pub output_buffer: heapless::Vec<u8, 1024>,
    pub is_controlling: bool,
}

impl TtyDevice {
    pub open spec fn input(&self) -> Seq<u8> {
        tty_bytes(self.input_buffer)
    }

    pub open spec fn output(&self) -> Seq<u8> {
        tty_bytes(self.output_buffer)
    }

    pub open spec fn wf(&self) -> bool {
        self.input().len() <= TTY_BUFFER_SIZE && self.output().len() <= TTY_BUFFER_SIZE
    }

    /// A terminal as it starts: empty buffers, default attributes and
    /// window size, no process group, not controlling.
    pub open spec fn fresh(&self) -> bool {
        &&& self.wf()
        &&& self.input() == Seq::<u8>::empty()
        &&& self.output() == Seq::<u8>::empty()
        &&& self.pgrp == 0
        &&& !self.is_controlling
        &&& self.winsize == Winsize::new_spec()
        &&& default_termios(self.termios)
    }

    pub fn new() -> (t: Self)
        ensures
            t.fresh(),
    {
        TtyDevice {
            termios: Termios::new(),
            winsize: Winsize::new(),
            pgrp: 0,
            input_buffer: buf_new(),
            output_buffer: buf_new(),
            is_controlling: false,
        }
    }

    /// Takes an input byte into the buffer (when there is room) and returns
    /// the byte to echo when `ECHO` is set.
    pub fn process_input(&mut self, byte: u8) -> (echo: Option<u8>)
        requires
            old(self).wf(),
        ensures
            final(self).wf(),
            final(self).input() == push_bounded(old(self).input(), input_byte(old(self).termios, byte)),
            final(self).output() == old(self).output(),
            final(self).termios == old(self).termios,
            echo == (if old(self).termios.c_lflag & ECHO != 0 { Some(input_byte(old(self).termios, byte)) } else { None::<u8> }),
    {
        let stored = if self.termios.c_lflag & ICANON != 0 && byte == 0x0D && self.termios.c_iflag & ICRNL != 0 {
            0x0Au8
        } else {
            byte
        };
        let _ = buf_push(&mut self.input_buffer, stored);
        if self.termios.c_lflag & ECHO != 0 {
            Some(stored)
        } else {
            None
        }
    }

    /// Reads buffered input into `buf`: as many bytes as fit, and in
    /// canonical mode no further than the first NL. The bytes read leave the
    /// buffer.
    pub fn read_input(&mut self, buf: &mut [u8]) -> (count: usize)
        requires
            old(self).wf(),
        ensures
            final(self).wf(),
            count == read_count(old(self).input(), old(self).termios.c_lflag & ICANON != 0, old(buf)@.len() as int),
            final(buf)@.len() == old(buf)@.len(),
            final(buf)@.subrange(0, count as int) == old(self).input().subrange(0, count as int),
            final(buf)@.skip(count as int) == old(buf)@.skip(count as int),
            final(self).input() == old(self).input().skip(count as int),
            final(self).output() == old(self).output(),
            final(self).termios == old(self).termios,
    {
        let canonical = self.termios.c_lflag & ICANON != 0;
        let ilen = buf_len(&self.input_buffer);
        let max_read = if buf.len() < ilen { buf.len() } else { ilen };
        let ghost input = self.input();
        let mut count: usize = 0;
        let mut stop = false;
        while count < max_read && !stop
            invariant
                input == self.input(),
                ilen == input.len(),
                max_read <= ilen,
                max_read <= buf@.len(),
                buf@.len() == old(buf)@.len(),
                0 <= count <= max_read,
                buf@.subrange(0, count as int) == input.subrange(0, count as int),
                buf@.skip(count as int) == old(buf)@.skip(count as int),
                !stop ==> forall|j: int| 0 <= j < count ==> !(canonical && input[j] == 0x0A),
                stop ==> count > 0 && canonical && input[count - 1] == 0x0A
                    && forall|j: int| 0 <= j < count - 1 ==> input[j] != 0x0A,
            decreases max_read - count,
        {
            let byte = buf_get(&self.input_buffer, count);
            proof {
                assert(buf@.skip(count as int)[0] == old(buf)@.skip(count as int)[0]);
            }
            let ghost prev = buf@;
            buf[count] = byte;
            proof {
                assert(buf@.subrange(0, count as int + 1) =~= input.subrange(0, count as int + 1));
                assert(buf@.skip(count as int + 1) =~= old(buf)@.skip(count as int + 1)) by {
                    assert forall|k: int| 0 <= k < buf@.skip(count as int + 1).len() implies
                        #[trigger] buf@.skip(count as int + 1)[k] == old(buf)@.skip(count as int + 1)[k] by {
                        assert(buf@.skip(count as int + 1)[k] == buf@[count + 1 + k]);
                        assert(buf@[count + 1 + k] == prev[count + 1 + k]);
                        assert(prev.skip(count as int)[k + 1] == old(buf)@.skip(count as int)[k + 1]);
                    }
                }
            }
            count = count + 1;
            if canonical && byte == 0x0A {
                stop = true;
            }
        }
        proof {
            let m = max_read as int;
            if stop {
                let i = choose|i: int| 0 <= i < m && input[i] == 0x0A && forall|j: int| 0 <= j < i ==> input[j] != 0x0A;
                assert(input[count - 1] == 0x0A);
                if i < count - 1 { assert(input[i] != 0x0A); }
                if i > count - 1 { assert(input[count - 1] != 0x0A); }
            } else if canonical && exists|i: int| 0 <= i < m && input[i] == 0x0A {
                let i = choose|i: int| 0 <= i < m && input[i] == 0x0A;
                assert(!(canonical && input[i] == 0x0A));
            }
        }
        buf_remove_front(&mut self.input_buffer, count);
        count
    }

    /// Writes `data` to the output buffer until it is full, translating NL
    /// to CR-NL with `OPOST` and `ONLCR`; returns how many bytes were taken.
    pub fn write_output(&mut self, data: &[u8]) -> (written: usize)
        requires
            old(self).wf(),
        ensures
            final(self).wf(),
            (final(self).output(), written as nat) == write_all(old(self).output(), old(self).termios, data@),
            final(self).input() == old(self).input(),
            final(self).termios == old(self).termios,
    {
        let mut written: usize = 0;
        let n = data.len();
        assert(data@.skip(0) =~= data@);
        while written < n && buf_len(&self.output_buffer) < TTY_BUFFER_SIZE
            invariant
                self.wf(),
                n == data@.len(),
                0 <= written <= n,
                self.input() == old(self).input(),
                self.termios == old(self).termios,
                write_all(old(self).output(), old(self).termios, data@)
                    == ({
                        let (o, k) = write_all(self.output(), self.termios, data@.skip(written as int));
                        (o, (k + written) as nat)
                    }),
            decreases n - written,
        {
            let byte = data[written];
            proof {
                assert(data@.skip(written as int)[0] == byte);
                assert(data@.skip(written as int).skip(1) =~= data@.skip(written as int + 1));
            }
            if self.termios.c_oflag & OPOST != 0 && byte == 0x0A && self.termios.c_oflag & ONLCR != 0 {
                let _ = buf_push(&mut self.output_buffer, 0x0D);
                let _ = buf_push(&mut self.output_buffer, 0x0A);
            } else {
                let _ = buf_push(&mut self.output_buffer, byte);
            }
            written = written + 1;
        }
        proof {
            assert(data@.skip(written as int).len() == 0 || self.output().len() >= TTY_BUFFER_SIZE);
        }
        written
    }

    /// Takes everything in the output buffer, which becomes empty.
    pub fn flush_output(&mut self) -> (r: heapless::Vec<u8, 1024>)
        requires
            old(self).wf(),
        ensures
            final(self).wf(),
            tty_bytes(r) == old(self).output(),
            final(self).output() == Seq::<u8>::empty(),
            final(self).input() == old(self).input(),
            final(self).termios == old(self).termios,
    {
        let mut result = buf_new();
        let ghost orig = self.output();
        while buf_len(&self.output_buffer) > 0
            invariant
                self.wf(),
                orig.len() <= TTY_BUFFER_SIZE,
                self.output().len() <= orig.len(),
                self.output() == orig.subrange(0, self.output().len() as int),
                tty_bytes(result) == orig.subrange(self.output().len() as int, orig.len() as int).reverse(),
                self.input() == old(self).input(),
                self.termios == old(self).termios,
            decreases self.output().len(),
        {
            let ghost before = self.output();
            let ghost k = before.len() as int;
            let popped = buf_pop(&mut self.output_buffer);
            match popped {
                Some(byte) => {
                    proof {
                        assert(byte == orig[k - 1]);
                        let a = orig.subrange(k - 1, orig.len() as int).reverse();
                        let b = orig.subrange(k, orig.len() as int).reverse().push(byte);
                        assert(a.len() == b.len());
                        assert forall|x: int| 0 <= x < a.len() implies #[trigger] a[x] == b[x] by {
                            if x < a.len() - 1 {
                                assert(a[x] == orig[orig.len() - 1 - x]);
                                assert(b[x] == orig[orig.len() - 1 - x]);
                            }
                        }
                        assert(a =~= b);
                        assert(self.output() =~= orig.subrange(0, k - 1));
                    }
                    let _ = buf_push(&mut result, byte);
                },
                None => {},
            }
        }
        buf_reverse(&mut result);
        proof {
            assert(orig.subrange(0, orig.len() as int) =~= orig);
            assert(orig.reverse().reverse() =~= orig);
            assert(tty_bytes(result) =~= orig);
        }
        result
    }

    /// Empties the input buffer, the output buffer, or both (`queue` 0, 1, 2).
    pub fn flush_queue(&mut self, queue: usize) -> (r: SysCallResult)
        requires
            old(self).wf(),
        ensures
            final(self).wf(),
            queue == 0 ==> final(self).input() == Seq::<u8>::empty() && final(self).output() == old(self).output(),
            queue == 1 ==> final(self).output() == Seq::<u8>::empty() && final(self).input() == old(self).input(),
            queue == 2 ==> final(self).output() == Seq::<u8>::empty() && final(self).input() == Seq::<u8>::empty(),
            queue <= 2 ==> r == SysCallResult::Success(0),
            queue > 2 ==> r == SysCallResult::Error(EINVAL) && *final(self) == *old(self),
            final(self).termios == old(self).termios,
            final(self).winsize == old(self).winsize,
            final(self).pgrp == old(self).pgrp,
            final(self).is_controlling == old(self).is_controlling,
    {
        if queue == 0 {
            buf_clear(&mut self.input_buffer);
        } else if queue == 1 {
            buf_clear(&mut self.output_buffer);
        } else if queue == 2 {
            buf_clear(&mut self.input_buffer);
            buf_clear(&mut self.output_buffer);
        } else {
            return SysCallResult::Error(EINVAL);
        }
        SysCallResult::Success(0)
    }
}

impl Winsize {
    pub open spec fn new_spec() -> Winsize {
        Winsize { ws_row: 24, ws_col: 80, ws_xpixel: 0, ws_ypixel: 0 }
    }
}

/// Most terminals the kernel keeps.
pub const MAX_TTYS: usize = 16;

/// Sets up the terminals once: the first call adds the console terminal
/// (tty0), fresh, when there is room, and marks the table initialised;
/// later calls change nothing.
pub fn init_tty_devices(devices: &mut Vec<TtyDevice>, initialized: &mut bool)
    ensures
        *final(initialized),
        *old(initialized) ==> final(devices)@ == old(devices)@,
        !*old(initialized) && old(devices)@.len() >= MAX_TTYS ==> final(devices)@ == old(devices)@,
        !*old(initialized) && old(devices)@.len() < MAX_TTYS ==> {
            &&& final(devices)@.len() == old(devices)@.len() + 1
            &&& final(devices)@.drop_last() == old(devices)@
            &&& final(devices)@.last().fresh()
        },
{
    if !*initialized {
        if devices.len() < MAX_TTYS {
            let ghost before = devices@;
            devices.push(TtyDevice::new());
            assert(devices@.drop_last() =~= before);
        }
        *initialized = true;
    }
}

/// The terminal table after `init_tty_devices`: one fresh console terminal
/// added to an empty or short table the first time.
pub open spec fn set_up_ttys(ttys: Seq<TtyDevice>, initialized: bool, after: Seq<TtyDevice>) -> bool {
    if !initialized && ttys.len() < MAX_TTYS {
        after.len() == ttys.len() + 1 && after.drop_last() == ttys && after.last().fresh()
    } else {
        after == ttys
    }
}

/// A terminal table in order: every terminal valid, and once it is marked
/// set up it holds the console terminal (terminal 0).
pub open spec fn tty_table_ok(ttys: Seq<TtyDevice>, initialized: bool) -> bool {
    &&& forall|i: int| 0 <= i < ttys.len() ==> (#[trigger] ttys[i]).wf()
    &&& initialized ==> ttys.len() >= 1
}

/// What `ioctl(fd, request, arg)` does, from the table `ttys0` (set up when
/// `init0`) to `ttys1`, answering `r`: the terminals are set up if need be
/// (see `set_up_ttys`); standard input, output and error (descriptors 0 to
/// 2) use terminal 0, any other descriptor, negative ones included, is
/// `ENOTTY`; a missing terminal 0 is `ENODEV`; otherwise terminal 0 handles
/// the request (see `ioctl_result`) with `input`, the value read from `arg`,
/// and the other terminals are left alone.
pub open spec fn ioctl_outcome(
    ttys0: Seq<TtyDevice>,
    init0: bool,
    ttys1: Seq<TtyDevice>,
    fd: i32,
    request: usize,
    arg: usize,
    input: IoctlInput,
    r: (SysCallResult, IoctlOutput),
) -> bool {
    exists|set_up: Seq<TtyDevice>| {
        &&& #[trigger] set_up_ttys(ttys0, init0, set_up)
        &&& !(0 <= fd <= 2) ==> r == (SysCallResult::Error(ENOTTY), IoctlOutput::Nothing) && ttys1 == set_up
        &&& 0 <= fd <= 2 && set_up.len() == 0 ==> r == (SysCallResult::Error(ENODEV), IoctlOutput::Nothing)
            && ttys1 == set_up
        &&& 0 <= fd <= 2 && set_up.len() > 0 ==> {
            &&& ttys1.len() == set_up.len()
            &&& ioctl_result(set_up[0], ttys1[0], request, arg, input, r)
            &&& forall|i: int| 1 <= i < set_up.len() ==> ttys1[i] == set_up[i]
        }
    }
}

/// `ioctl(fd, request, arg)` (see `ioctl_outcome`). On a table in order the
/// console terminal is there, so `ENODEV` does not occur.
pub fn sys_ioctl(
    ttys: &mut Vec<TtyDevice>,
    initialized: &mut bool,
    fd: i32,
    request: usize,
    arg: usize,
    input: IoctlInput,
) -> (r: (SysCallResult, IoctlOutput))
    requires
        tty_table_ok(old(ttys)@, *old(initialized)),
        input_kind(request, arg) == 1 ==> input is Termios,
        input_kind(request, arg) == 2 ==> input is Winsize,
        input_kind(request, arg) == 3 ==> input is Pgrp,
    ensures
        *final(initialized),
        tty_table_ok(final(ttys)@, *final(initialized)),
        r.0 != SysCallResult::Error(ENODEV),
        ioctl_outcome(old(ttys)@, *old(initialized), final(ttys)@, fd, request, arg, input, r),
{
    init_tty_devices(ttys, initialized);
    let ghost set_up = ttys@;
    proof {
        assert forall|i: int| 0 <= i < ttys@.len() implies (#[trigger] ttys@[i]).wf() by {
            if i < old(ttys)@.len() {
                assert(ttys@[i] == old(ttys)@[i]);
            }
        }
        assert(set_up_ttys(old(ttys)@, *old(initialized), set_up));
        assert(set_up.len() >= 1);
    }
    let index = match get_tty_for_fd(fd) {
        Some(i) => i,
        None => {
            return (SysCallResult::Error(ENOTTY), IoctlOutput::Nothing);
        },
    };
    if index >= ttys.len() {
        return (SysCallResult::Error(ENODEV), IoctlOutput::Nothing);
    }
    let mut tty = ttys.remove(index);
    let r = tty_ioctl(&mut tty, request, arg, input);
    ttys.insert(index, tty);
    proof {
        assert forall|i: int| 0 <= i < ttys@.len() implies (#[trigger] ttys@[i]).wf() by {
            if i != index {
                assert(ttys@[i] == set_up[i]);
            }
        }
        assert forall|i: int| 1 <= i < set_up.len() implies ttys@[i] == set_up[i] by {}
        assert(ioctl_result(set_up[0], ttys@[0], request, arg, input, r));
        assert(r.0 != SysCallResult::Error(ENODEV)) by {
            assert(ENODEV != EINVAL && ENODEV != ENOSYS);
        }
    }
    r
}

/// What `ioctl` stores it gives back: on a table in order, setting the
/// window size (`TIOCSWINSZ`) through a standard descriptor succeeds, and a
/// later `TIOCGWINSZ` through any standard descriptor answers that size;
/// with a null address either request is `EINVAL` and the stored size stays.
pub proof fn law_ioctl_window_round_trip(
    t0: Seq<TtyDevice>,
    i0: bool,
    t1: Seq<TtyDevice>,
    t2: Seq<TtyDevice>,
    fd1: i32,
    fd2: i32,
    w: Winsize,
    a1: usize,
    a2: usize,
    r1: (SysCallResult, IoctlOutput),
    r2: (SysCallResult, IoctlOutput),
)
    requires
        tty_table_ok(t0, i0),
        0 <= fd1 <= 2,
        0 <= fd2 <= 2,
        ioctl_outcome(t0, i0, t1, fd1, TIOCSWINSZ, a1, IoctlInput::Winsize(w), r1),
        ioctl_outcome(t1, true, t2, fd2, TIOCGWINSZ, a2, IoctlInput::Nothing, r2),
    ensures
        t1.len() >= 1,
        a1 != 0 ==> r1 == (SysCallResult::Success(0), IoctlOutput::Nothing) && t1[0].winsize == w,
        a1 == 0 ==> r1 == (SysCallResult::Error(EINVAL), IoctlOutput::Nothing),
        a1 == 0 && t0.len() > 0 ==> t1[0].winsize == t0[0].winsize,
        a2 != 0 ==> r2 == (SysCallResult::Success(0), IoctlOutput::Winsize(t1[0].winsize)),
        a2 == 0 ==> r2 == (SysCallResult::Error(EINVAL), IoctlOutput::Nothing) && t2[0].winsize == t1[0].winsize,
{
    let s1 = choose|set_up: Seq<TtyDevice>| {
        &&& #[trigger] set_up_ttys(t0, i0, set_up)
        &&& !(0 <= fd1 <= 2) ==> r1 == (SysCallResult::Error(ENOTTY), IoctlOutput::Nothing) && t1 == set_up
        &&& 0 <= fd1 <= 2 && set_up.len() == 0 ==> r1 == (SysCallResult::Error(ENODEV), IoctlOutput::Nothing)
            && t1 == set_up
        &&& 0 <= fd1 <= 2 && set_up.len() > 0 ==> {
            &&& t1.len() == set_up.len()
            &&& ioctl_result(set_up[0], t1[0], TIOCSWINSZ, a1, IoctlInput::Winsize(w), r1)
            &&& forall|i: int| 1 <= i < set_up.len() ==> t1[i] == set_up[i]
        }
    };
    assert(s1.len() >= 1);
    let s2 = choose|set_up: Seq<TtyDevice>| {
        &&& #[trigger] set_up_ttys(t1, true, set_up)
        &&& !(0 <= fd2 <= 2) ==> r2 == (SysCallResult::Error(ENOTTY), IoctlOutput::Nothing) && t2 == set_up
        &&& 0 <= fd2 <= 2 && set_up.len() == 0 ==> r2 == (SysCallResult::Error(ENODEV), IoctlOutput::Nothing)
            && t2 == set_up
        &&& 0 <= fd2 <= 2 && set_up.len() > 0 ==> {
            &&& t2.len() == set_up.len()
            &&& ioctl_result(set_up[0], t2[0], TIOCGWINSZ, a2, IoctlInput::Nothing, r2)
            &&& forall|i: int| 1 <= i < set_up.len() ==> t2[i] == set_up[i]
        }
    };
    assert(s2 == t1);
}

/// The terminal behind a file descriptor: standard input, output and error
/// are terminal 0.
pub fn get_tty_for_fd(fd: i32) -> (r: Option<usize>)
    ensures
        0 <= fd <= 2 ==> r == Some(0usize),
        !(0 <= fd <= 2) ==> r.is_none(),
{
    if 0 <= fd && fd <= 2 { Some(0) } else { None }
}

/// What a device call asks for.
#[derive(Debug, Clone, Copy, PartialEq, Eq, Structural)]
pub enum DeviceRequest {
    /// Answered at once.
    Done(SysCallResult),
    /// Terminal control: (fd, request, argument).
    Ioctl(i32, usize, usize),
    /// List the terminals; the call answers their number.
    GetDevices,
}

/// Decodes a device call: `ioctl` and the device listing are served; every
/// other known call is `ENOSYS`.
pub fn handle_device_syscall(args: &SyscallArgs) -> (r: DeviceRequest)
    ensures
        args.syscall_number == SYS_IOCTL ==> r == DeviceRequest::Ioctl(args.arg0 as i32, args.arg1, args.arg2),
        args.syscall_number == SYS_GETDEVICES ==> r == DeviceRequest::GetDevices,
        args.syscall_number != SYS_IOCTL && args.syscall_number != SYS_GETDEVICES
            ==> r == DeviceRequest::Done(SysCallResult::Error(ENOSYS)),
{
    match args.syscall_number {
        SYS_IOCTL => DeviceRequest::Ioctl(args.arg0_as_i32(), args.arg1, args.arg2),
        SYS_GETDEVICES => DeviceRequest::GetDevices,
        _ => DeviceRequest::Done(SysCallResult::Error(ENOSYS)),
    }
}

/// What an `ioctl` must read from the user address before it runs.
#[derive(Debug, Clone, Copy)]
pub enum IoctlInput {
    Nothing,
    Termios(Termios),
    Winsize(Winsize),
    Pgrp(i32),
}

/// What an `ioctl` leaves at the user address.
#[derive(Debug, Clone, Copy)]
pub enum IoctlOutput {
    Nothing,
    Termios(Termios),
    Winsize(Winsize),
    Int(i32),
}

/// Which value an `ioctl` request reads from a non-null user address:
/// 1 attributes, 2 window size, 3 process group, 0 nothing.
pub open spec fn input_kind(request: usize, arg: usize) -> u8 {
    if arg == 0 {
        0
    } else if request == TCSETS || request == TCSETSW || request == TCSETSF {
        1
    } else if request == TIOCSWINSZ {
        2
    } else if request == TIOCSPGRP {
        3
    } else {
        0
    }
}

/// Which value an `ioctl` request reads from the user address before it runs.
pub fn ioctl_input_kind(request: usize, arg: usize) -> (k: u8)
    ensures
        k == input_kind(request, arg),
        arg == 0 ==> k == 0,
        arg != 0 && (request == TCSETS || request == TCSETSW || request == TCSETSF) ==> k == 1,
        arg != 0 && request == TIOCSWINSZ ==> k == 2,
        arg != 0 && request == TIOCSPGRP ==> k == 3,
        !(request == TCSETS || request == TCSETSW || request == TCSETSF || request == TIOCSWINSZ
            || request == TIOCSPGRP) ==> k == 0,
{
    if arg == 0 {
        0
    } else if request == TCSETS || request == TCSETSW || request == TCSETSF {
        1
    } else if request == TIOCSWINSZ {
        2
    } else if request == TIOCSPGRP {
        3
    } else {
        0
    }
}

/// What `ioctl(request, arg)` does to terminal `t0`, leaving `t1`, with the
/// value `input` read from `arg`, and what it answers. Requests that carry a
/// value need a non-null address (else `EINVAL`); getters change nothing;
/// setters change their field; `TCSETSF` also empties both buffers;
/// `TCFLSH` empties the input (0), output (1) or both (2) buffers;
/// unknown requests are `ENOSYS`.
pub open spec fn ioctl_result(t0: TtyDevice, t1: TtyDevice, request: usize, arg: usize, input: IoctlInput, r: (SysCallResult, IoctlOutput)) -> bool {
    let needs_arg = request == TCGETS || request == TCSETS || request == TCSETSW || request == TCSETSF
        || request == TIOCGWINSZ || request == TIOCSWINSZ || request == TIOCGPGRP || request == TIOCSPGRP
        || request == FIONREAD;
    let known = needs_arg || request == TIOCSCTTY || request == TCFLSH;
    &&& needs_arg && arg == 0 ==> r == (SysCallResult::Error(EINVAL), IoctlOutput::Nothing) && t1 == t0
    &&& !known ==> r == (SysCallResult::Error(ENOSYS), IoctlOutput::Nothing) && t1 == t0
    &&& request == TCGETS && arg != 0 ==> r == (SysCallResult::Success(0), IoctlOutput::Termios(t0.termios)) && t1 == t0
    &&& (request == TCSETS || request == TCSETSW) && arg != 0 ==> r == (SysCallResult::Success(0), IoctlOutput::Nothing)
        && (input matches IoctlInput::Termios(t) && t1 == TtyDevice { termios: t, ..t0 })
    &&& request == TCSETSF && arg != 0 ==> r == (SysCallResult::Success(0), IoctlOutput::Nothing)
        && (input matches IoctlInput::Termios(t) && t1.termios == t && t1.input() == Seq::<u8>::empty()
        && t1.output() == Seq::<u8>::empty() && t1.winsize == t0.winsize && t1.pgrp == t0.pgrp
        && t1.is_controlling == t0.is_controlling)
    &&& request == TIOCGWINSZ && arg != 0 ==> r == (SysCallResult::Success(0), IoctlOutput::Winsize(t0.winsize)) && t1 == t0
    &&& request == TIOCSWINSZ && arg != 0 ==> r == (SysCallResult::Success(0), IoctlOutput::Nothing)
        && (input matches IoctlInput::Winsize(w) && t1 == TtyDevice { winsize: w, ..t0 })
    &&& request == TIOCGPGRP && arg != 0 ==> r == (SysCallResult::Success(0), IoctlOutput::Int(t0.pgrp)) && t1 == t0
    &&& request == TIOCSPGRP && arg != 0 ==> r == (SysCallResult::Success(0), IoctlOutput::Nothing)
        && (input matches IoctlInput::Pgrp(p) && t1 == TtyDevice { pgrp: p, ..t0 })
    &&& request == TIOCSCTTY ==> r == (SysCallResult::Success(0), IoctlOutput::Nothing)
        && t1 == TtyDevice { is_controlling: true, ..t0 }
    &&& request == FIONREAD && arg != 0 ==> r == (SysCallResult::Success(0), IoctlOutput::Int(t0.input().len() as i32))
        && t1 == t0
    &&& request == TCFLSH ==> {
        &&& r.1 == IoctlOutput::Nothing
        &&& t1.termios == t0.termios && t1.winsize == t0.winsize && t1.pgrp == t0.pgrp
            && t1.is_controlling == t0.is_controlling
        &&& arg > 2 ==> r.0 == SysCallResult::Error(EINVAL) && t1 == t0
        &&& arg <= 2 ==> r.0 == SysCallResult::Success(0)
        &&& arg == 0 ==> t1.input() == Seq::<u8>::empty() && t1.output() == t0.output()
        &&& arg == 1 ==> t1.output() == Seq::<u8>::empty() && t1.input() == t0.input()
        &&& arg == 2 ==> t1.input() == Seq::<u8>::empty() && t1.output() == Seq::<u8>::empty()
    }
}

/// What a terminal is told it gives back: after `TIOCSWINSZ` with window
/// size `w`, `TIOCGWINSZ` answers `w`; after `TIOCSPGRP` with group `p`,
/// `TIOCGPGRP` answers `p` (both with non-null addresses).
pub proof fn law_terminal_set_then_get(
    t0: TtyDevice,
    t1: TtyDevice,
    t2: TtyDevice,
    set: IoctlInput,
    a1: usize,
    a2: usize,
    r1: (SysCallResult, IoctlOutput),
    r2: (SysCallResult, IoctlOutput),
)
    requires
        a1 != 0,
        a2 != 0,
    ensures
        (set is Winsize && ioctl_result(t0, t1, TIOCSWINSZ, a1, set, r1)
            && ioctl_result(t1, t2, TIOCGWINSZ, a2, IoctlInput::Nothing, r2))
            ==> r2 == (SysCallResult::Success(0), IoctlOutput::Winsize(set->Winsize_0)),
        (set is Pgrp && ioctl_result(t0, t1, TIOCSPGRP, a1, set, r1)
            && ioctl_result(t1, t2, TIOCGPGRP, a2, IoctlInput::Nothing, r2))
            ==> r2 == (SysCallResult::Success(0), IoctlOutput::Int(set->Pgrp_0)),
{
}

/// Terminal control on `tty`: getting and setting attributes, window size
/// and process group, making it controlling, counting buffered input and
/// flushing buffers. Requests that carry a value need a non-null address
/// (else `EINVAL`); unknown requests are `ENOSYS`.
pub fn tty_ioctl(tty: &mut TtyDevice, request: usize, arg: usize, input: IoctlInput) -> (r: (SysCallResult, IoctlOutput))
    requires
        old(tty).wf(),
        input_kind(request, arg) == 1 ==> input is Termios,
        input_kind(request, arg) == 2 ==> input is Winsize,
        input_kind(request, arg) == 3 ==> input is Pgrp,
    ensures
        final(tty).wf(),
        ioctl_result(*old(tty), *final(tty), request, arg, input, r),
{
    let needs_arg = request == TCGETS || request == TCSETS || request == TCSETSW || request == TCSETSF
        || request == TIOCGWINSZ || request == TIOCSWINSZ || request == TIOCGPGRP || request == TIOCSPGRP
        || request == FIONREAD;
    if needs_arg && arg == 0 {
        return (SysCallResult::Error(EINVAL), IoctlOutput::Nothing);
    }
    if request == TCGETS {
        (SysCallResult::Success(0), IoctlOutput::Termios(tty.termios))
    } else if request == TCSETS || request == TCSETSW || request == TCSETSF {
        if request == TCSETSF {
            buf_clear(&mut tty.input_buffer);
            buf_clear(&mut tty.output_buffer);
        }
        match input {
            IoctlInput::Termios(t) => { tty.termios = t; },
            _ => {},
        }
        (SysCallResult::Success(0), IoctlOutput::Nothing)
    } else if request == TIOCGWINSZ {
        (SysCallResult::Success(0), IoctlOutput::Winsize(tty.winsize))
    } else if request == TIOCSWINSZ {
        match input {
            IoctlInput::Winsize(w) => { tty.winsize = w; },
            _ => {},
        }
        (SysCallResult::Success(0), IoctlOutput::Nothing)
    } else if request == TIOCGPGRP {
        (SysCallResult::Success(0), IoctlOutput::Int(tty.pgrp))
    } else if request == TIOCSPGRP {
        match input {
            IoctlInput::Pgrp(p) => { tty.pgrp = p; },
            _ => {},
        }
        (SysCallResult::Success(0), IoctlOutput::Nothing)
    } else if request == TIOCSCTTY {
        tty.is_controlling = true;
        (SysCallResult::Success(0), IoctlOutput::Nothing)
    } else if request == FIONREAD {
        let available = buf_len(&tty.input_buffer) as i32;
        (SysCallResult::Success(0), IoctlOutput::Int(available))
    } else if request == TCFLSH {
        (tty.flush_queue(arg), IoctlOutput::Nothing)
    } else {
        (SysCallResult::Error(ENOSYS), IoctlOutput::Nothing)
    }
}

} // verus!
