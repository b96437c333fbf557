//! The interactive shell: line editing, the command history and how a
//! typed line is split into a built-in or a command for the kernel.
use vstd::prelude::*;
use crate::commands::{char_bytes, copy_range, is_whitespace, is_ws, str_bytes, trim, lemma_str_bytes_append};

verus! {

/// Longest command line, in bytes.
pub const MAX_COMMAND_LEN: usize = 1024;
/// Most commands the history keeps.
pub const MAX_HISTORY_ENTRIES: usize = 100;
/// Most words a command line may have.
pub const MAX_WORDS: usize = 16;
/// Largest history file, in bytes.
pub const MAX_HISTORY_FILE: usize = 4096;

/// The shell's prompt and line length.
pub struct ShellConfig {
    pub prompt: &'static str,
    pub max_command_len: usize,
}

impl Default for ShellConfig {
    /// The prompt `elinOS> ` and lines of up to `MAX_COMMAND_LEN` bytes.
    fn default() -> (c: Self)
        ensures
            c.prompt@ == "elinOS> "@,
            c.max_command_len == MAX_COMMAND_LEN,
    {
        ShellConfig { prompt: "elinOS> ", max_command_len: MAX_COMMAND_LEN }
    }
}

/// The words of `s` (runs of non-white-space), given the word `cur` read
/// so far.
pub open spec fn words_from(s: Seq<char>, cur: Seq<char>) -> Seq<Seq<char>>
    decreases s.len(),
{
    if s.len() == 0 {
        if cur.len() > 0 { seq![cur] } else { Seq::empty() }
    } else if is_ws(s[0]) {
        (if cur.len() > 0 { seq![cur] } else { Seq::empty() }) + words_from(s.drop_first(), Seq::empty())
    } else {
        words_from(s.drop_first(), cur.push(s[0]))
    }
}

/// The white-space separated words of `s`.
pub open spec fn words(s: Seq<char>) -> Seq<Seq<char>> {
    words_from(s, Seq::empty())
}

/// The texts of `v`.
pub open spec fn texts(v: Seq<Vec<char>>) -> Seq<Seq<char>> {
    v.map_values(|x: Vec<char>| x@)
}

/// The white-space separated words of `s`.
pub fn split_words(s: &[char]) -> (r: Vec<Vec<char>>)
    ensures
        texts(r@) == words(s@),
{
    let n = s.len();
    let mut out: Vec<Vec<char>> = Vec::new();
    let mut cur: Vec<char> = Vec::new();
    let mut i: usize = 0;
    assert(s@.skip(0) =~= s@);
    assert(texts(out@) + words_from(s@, cur@) =~= words_from(s@, cur@));
    while i < n
        invariant
            n == s@.len(),
            i <= n,
            words(s@) == texts(out@) + words_from(s@.skip(i as int), cur@),
        decreases n - i,
    {
        let ghost rest = s@.skip(i as int);
        assert(rest.drop_first() =~= s@.skip(i + 1));
        assert(rest[0] == s@[i as int]);
        if is_whitespace(s[i]) {
            if cur.len() > 0 {
                let ghost before = out@;
                out.push(cur);
                assert(texts(out@) =~= texts(before) + seq![cur@]);
            }
            cur = Vec::new();
        } else {
            cur.push(s[i]);
        }
        i = i + 1;
    }
    if cur.len() > 0 {
        let ghost before = out@;
        let ghost last = cur@;
        out.push(cur);
        assert(texts(out@) =~= texts(before) + seq![last]);
    } else {
        assert(texts(out@) + Seq::<Seq<char>>::empty() =~= texts(out@));
    }
    out
}

/// What the shell does with a line.
#[derive(Debug)]
pub enum ShellAction {
    /// Nothing was typed.
    Empty,
    Help,
    History,
    /// `exit` or `quit`: leave the shell.
    Exit,
    Shutdown,
    Reboot,
    /// Anything else goes to the kernel: the command word and its arguments.
    System(Vec<char>, Vec<Vec<char>>),
}

/// Reads a line typed at the shell: no word is `Empty`; `help`, `history`,
/// `exit`, `quit`, `shutdown` and `reboot` are the shell's own; any other
/// first word is a command for the kernel, with the other words as its
/// arguments.
pub fn classify_command(line: &[char]) -> (r: ShellAction)
    requires
        words(line@).len() <= MAX_WORDS,
    ensures
        words(line@).len() == 0 <==> r is Empty,
        words(line@).len() > 0 ==> {
            let cmd = words(line@)[0];
            &&& (r is Help <==> cmd == "help"@)
            &&& (r is History <==> cmd == "history"@)
            &&& (r is Exit <==> (cmd == "exit"@ || cmd == "quit"@))
            &&& (r is Shutdown <==> cmd == "shutdown"@)
            &&& (r is Reboot <==> cmd == "reboot"@)
            &&& (r matches ShellAction::System(c, args) ==> c@ == cmd && texts(args@) == words(line@).drop_first())
        },
{
    let parts = split_words(line);
    if parts.len() == 0 {
        return ShellAction::Empty;
    }
    let cmd = parts[0].as_slice();
    assert(cmd@ == words(line@)[0]);
    proof {
        reveal_strlit("help");
        reveal_strlit("history");
        reveal_strlit("exit");
        reveal_strlit("quit");
        reveal_strlit("shutdown");
        reveal_strlit("reboot");
        assert("help"@.len() == 4 && "history"@.len() == 7 && "exit"@.len() == 4 && "quit"@.len() == 4);
        assert("shutdown"@.len() == 8 && "reboot"@.len() == 6);
        assert("help"@[0] == 'h' && "exit"@[0] == 'e' && "quit"@[0] == 'q');
    }
    let is_help = crate::commands::chars_eq(cmd, "help");
    let is_history = crate::commands::chars_eq(cmd, "history");
    let is_exit = crate::commands::chars_eq(cmd, "exit");
    let is_quit = crate::commands::chars_eq(cmd, "quit");
    let is_shutdown = crate::commands::chars_eq(cmd, "shutdown");
    let is_reboot = crate::commands::chars_eq(cmd, "reboot");
    assert(!(is_help && is_history) && !(is_help && (is_exit || is_quit)) && !(is_history && (is_exit || is_quit)));
    assert(!(is_shutdown && (is_help || is_history || is_exit || is_quit)));
    assert(!(is_reboot && (is_help || is_history || is_exit || is_quit || is_shutdown)));
    if is_help {
        ShellAction::Help
    } else if is_history {
        ShellAction::History
    } else if is_exit || is_quit {
        ShellAction::Exit
    } else if is_shutdown {
        ShellAction::Shutdown
    } else if is_reboot {
        ShellAction::Reboot
    } else {
        let c = copy_range(cmd, 0, cmd.len());
        assert(c@ =~= cmd@);
        let mut args: Vec<Vec<char>> = Vec::new();
        let mut i: usize = 1;
        while i < parts.len()
            invariant
                1 <= i <= parts@.len(),
                texts(parts@) == words(line@),
                texts(args@) == texts(parts@).subrange(1, i as int),
            decreases parts@.len() - i,
        {
            let w = copy_range(parts[i].as_slice(), 0, parts[i].len());
            let ghost before = args@;
            assert(w@ =~= parts@[i as int]@);
            args.push(w);
            assert(texts(args@) =~= texts(before).push(w@));
            i = i + 1;
            assert(texts(args@) =~= texts(parts@).subrange(1, i as int));
        }
        assert(texts(parts@).subrange(1, parts@.len() as int) =~= words(line@).drop_first());
        ShellAction::System(c, args)
    }
}

/// What one key does to the line being typed.
#[derive(Debug, Clone, Copy, PartialEq, Eq, Structural)]
pub enum KeyEffect {
    /// Return or newline: the line is done.
    Submit,
    /// The last character was erased; the screen backs over it.
    Erase,
    /// The character was added and is shown.
    Echo(u8),
    /// Nothing changed.
    Ignore,
}

/// The line being typed, of at most `max_len - 1` bytes.
pub struct LineEditor {
    buffer: Vec<u8>,
    max_len: usize,
}

impl LineEditor {
    pub closed spec fn view(&self) -> Seq<u8> {
        self.buffer@
    }

    pub closed spec fn spec_max_len(&self) -> usize {
        self.max_len
    }

    pub open spec fn wf(&self) -> bool {
        &&& 1 <= self.spec_max_len()
        &&& self@.len() < self.spec_max_len()
        &&& self@.len() <= MAX_COMMAND_LEN
    }

    /// An empty line of at most `max_len - 1` bytes.
    pub fn new(max_len: usize) -> (e: Self)
        requires
            max_len >= 1,
        ensures
            e.wf(),
            e@ == Seq::<u8>::empty(),
            e.spec_max_len() == max_len,
    {
        LineEditor { buffer: Vec::new(), max_len }
    }

    /// The bytes typed so far.
    pub fn line(&self) -> (l: &[u8])
        ensures
            l@ == self@,
    {
        self.buffer.as_slice()
    }

    /// Starts a new line.
    pub fn clear(&mut self)
        requires
            old(self).wf(),
        ensures
            final(self).wf(),
            final(self)@ == Seq::<u8>::empty(),
            final(self).spec_max_len() == old(self).spec_max_len(),
    {
        self.buffer.clear();
    }

    /// Takes key `ch`: return or newline submits; backspace or delete erases
    /// the last character, if any; a printable ASCII character is added
    /// while the line has room (fewer than `max_len - 1` bytes, and fewer
    /// than `MAX_COMMAND_LEN`); anything else is ignored.
    pub fn key(&mut self, ch: u8) -> (effect: KeyEffect)
        requires
            old(self).wf(),
        ensures
            final(self).wf(),
            final(self).spec_max_len() == old(self).spec_max_len(),
            (ch == 13 || ch == 10) ==> effect == KeyEffect::Submit && final(self)@ == old(self)@,
            (ch == 8 || ch == 127) ==> if old(self)@.len() > 0 {
                effect == KeyEffect::Erase && final(self)@ == old(self)@.drop_last()
            } else {
                effect == KeyEffect::Ignore && final(self)@ == old(self)@
            },
            (32 <= ch <= 126) ==> if old(self)@.len() < old(self).spec_max_len() - 1 && old(self)@.len() < MAX_COMMAND_LEN {
                effect == KeyEffect::Echo(ch) && final(self)@ == old(self)@.push(ch)
            } else {
                effect == KeyEffect::Ignore && final(self)@ == old(self)@
            },
            !(ch == 13 || ch == 10 || ch == 8 || ch == 127 || (32 <= ch <= 126)) ==> effect == KeyEffect::Ignore
                && final(self)@ == old(self)@,
    {
        if ch == 13 || ch == 10 {
            KeyEffect::Submit
        } else if ch == 8 || ch == 127 {
            if self.buffer.len() > 0 {
                self.buffer.pop();
                KeyEffect::Erase
            } else {
                KeyEffect::Ignore
            }
        } else if 32 <= ch && ch <= 126 {
            if self.buffer.len() < self.max_len - 1 && self.buffer.len() < MAX_COMMAND_LEN {
                self.buffer.push(ch);
                KeyEffect::Echo(ch)
            } else {
                KeyEffect::Ignore
            }
        } else {
            KeyEffect::Ignore
        }
    }
}

/// The kernel's side of the shell.
pub struct KernelShellInterface;

/// `cmd` followed by each of `args` after a space.
pub open spec fn joined_command(cmd: Seq<char>, args: Seq<Seq<char>>) -> Seq<char>
    decreases args.len(),
{
    if args.len() == 0 {
        cmd
    } else {
        joined_command(cmd, args.drop_last()) + seq![' '] + args.last()
    }
}

impl KernelShellInterface {
    pub fn new() -> (k: Self) {
        KernelShellInterface
    }

    /// The command line for the kernel: `cmd` and its arguments, separated
    /// by single spaces; a line over `MAX_COMMAND_LEN` bytes is refused
    /// with "Command too long".
    pub fn system_command_line(&self, cmd: &[char], args: &[Vec<char>]) -> (r: Result<Vec<char>, &'static str>)
        ensures
            str_bytes(joined_command(cmd@, texts(args@))) <= MAX_COMMAND_LEN ==> (r matches Ok(line) && line@
                == joined_command(cmd@, texts(args@))),
            str_bytes(joined_command(cmd@, texts(args@))) > MAX_COMMAND_LEN ==> r == Err::<Vec<char>, &'static str>(
                "Command too long",
            ),
    {
        let mut line = copy_range(cmd, 0, cmd.len());
        assert(line@ =~= cmd@);
        let mut bytes = crate::commands::str_bytes_upto(line.as_slice(), MAX_COMMAND_LEN);
        if bytes > MAX_COMMAND_LEN {
            assert(joined_command(cmd@, texts(args@).take(0)) == cmd@);
            proof { lemma_joined_grows(cmd@, texts(args@), 0); }
            return Err("Command too long");
        }
        let mut i: usize = 0;
        while i < args.len()
            invariant
                i <= args@.len(),
                line@ == joined_command(cmd@, texts(args@).take(i as int)),
                bytes == str_bytes(line@),
                bytes <= MAX_COMMAND_LEN,
            decreases args@.len() - i,
        {
            let ghost before = line@;
            line.push(' ');
            proof {
                lemma_str_bytes_append(before, seq![' ']);
                assert(line@ =~= before + seq![' ']);
                assert(str_bytes(seq![' ']) == 1) by {
                    assert(seq![' '].drop_last() =~= Seq::<char>::empty());
                    assert(char_bytes(' ') == 1);
                    assert(seq![' '].last() == ' ');
                    assert(str_bytes(Seq::<char>::empty()) == 0);
                    assert(str_bytes(seq![' ']) == str_bytes(seq![' '].drop_last()) + char_bytes(seq![' '].last()));
                }
            }
            let ab = crate::commands::str_bytes_upto(args[i].as_slice(), MAX_COMMAND_LEN);
            if bytes + 1 + ab > MAX_COMMAND_LEN {
                proof {
                    let t = texts(args@);
                    assert(t.take(i + 1).drop_last() =~= t.take(i as int));
                    assert(t.take(i + 1).last() == args@[i as int]@);
                    lemma_str_bytes_append(before + seq![' '], args@[i as int]@);
                    lemma_joined_grows(cmd@, t, i + 1);
                }
                return Err("Command too long");
            }
            let mut piece = copy_range(args[i].as_slice(), 0, args[i].len());
            assert(piece@ =~= args@[i as int]@);
            proof {
                lemma_str_bytes_append(line@, piece@);
            }
            line.append(&mut piece);
            bytes = bytes + 1 + ab;
            proof {
                let t = texts(args@);
                assert(t.take(i + 1).drop_last() =~= t.take(i as int));
                assert(t.take(i + 1).last() == args@[i as int]@);
            }
            i = i + 1;
        }
        assert(texts(args@).take(args@.len() as int) =~= texts(args@));
        Ok(line)
    }
}

/// Joining more arguments never makes the line shorter.
proof fn lemma_joined_grows(cmd: Seq<char>, args: Seq<Seq<char>>, k: int)
    requires
        0 <= k <= args.len(),
    ensures
        str_bytes(joined_command(cmd, args.take(k))) <= str_bytes(joined_command(cmd, args)),
    decreases args.len() - k,
{
    if k < args.len() {
        lemma_joined_grows(cmd, args, k + 1);
        let t = args.take(k + 1);
        assert(t.drop_last() =~= args.take(k));
        lemma_str_bytes_append(joined_command(cmd, args.take(k)) + seq![' '], t.last());
        lemma_str_bytes_append(joined_command(cmd, args.take(k)), seq![' ']);
        crate::commands::lemma_str_bytes_nonneg(t.last());
        crate::commands::lemma_str_bytes_nonneg(seq![' ']);
    } else {
        assert(args.take(k) =~= args);
    }
}

/// The history after `command` is offered to it: a repeat of the last
/// command, the word `history` itself and a command over
/// `MAX_COMMAND_LEN` bytes are not kept; a full history drops its oldest
/// command first.
pub open spec fn history_accepts(h: Seq<Seq<char>>, command: Seq<char>) -> bool {
    &&& !(h.len() > 0 && h.last() == command)
    &&& trim(command) != "history"@
    &&& str_bytes(command) <= MAX_COMMAND_LEN
}

pub open spec fn history_add(h: Seq<Seq<char>>, command: Seq<char>) -> Seq<Seq<char>> {
    if !history_accepts(h, command) {
        h
    } else if h.len() >= MAX_HISTORY_ENTRIES {
        h.drop_first().push(command)
    } else {
        h.push(command)
    }
}

/// The history file: each command followed by a newline.
pub open spec fn history_text(h: Seq<Seq<char>>) -> Seq<char>
    decreases h.len(),
{
    if h.len() == 0 {
        Seq::empty()
    } else {
        history_text(h.drop_last()) + h.last() + seq!['\n']
    }
}

/// The non-empty lines of `s` (split at newlines), given the line `cur`
/// read so far.
pub open spec fn lines_from(s: Seq<char>, cur: Seq<char>) -> Seq<Seq<char>>
    decreases s.len(),
{
    if s.len() == 0 {
        if cur.len() > 0 { seq![cur] } else { Seq::empty() }
    } else if s[0] == '\n' {
        (if cur.len() > 0 { seq![cur] } else { Seq::empty() }) + lines_from(s.drop_first(), Seq::empty())
    } else {
        lines_from(s.drop_first(), cur.push(s[0]))
    }
}

/// The history read from `lines`, after `acc`: each line trimmed; blank
/// lines and lines over `MAX_COMMAND_LEN` bytes skipped; reading stops
/// once `MAX_HISTORY_ENTRIES` commands are kept.
pub open spec fn history_from_lines(lines: Seq<Seq<char>>, acc: Seq<Seq<char>>) -> Seq<Seq<char>>
    decreases lines.len(),
{
    if lines.len() == 0 || acc.len() >= MAX_HISTORY_ENTRIES {
        acc
    } else {
        let t = trim(lines[0]);
        if t.len() > 0 && str_bytes(t) <= MAX_COMMAND_LEN {
            history_from_lines(lines.drop_first(), acc.push(t))
        } else {
            history_from_lines(lines.drop_first(), acc)
        }
    }
}

/// The history a history file holds.
pub open spec fn history_of_text(s: Seq<char>) -> Seq<Seq<char>> {
    history_from_lines(lines_from(s, Seq::empty()), Seq::empty())
}

/// The commands typed, oldest first.
pub struct CommandHistory {
    entries: Vec<Vec<char>>,
}

impl CommandHistory {
    pub closed spec fn view(&self) -> Seq<Seq<char>> {
        texts(self.entries@)
    }

    pub open spec fn wf(&self) -> bool {
        &&& self@.len() <= MAX_HISTORY_ENTRIES
        &&& forall|i: int| 0 <= i < self@.len() ==> str_bytes(#[trigger] self@[i]) <= MAX_COMMAND_LEN
    }

    /// No commands yet.
    pub fn new() -> (h: Self)
        ensures
            h.wf(),
            h@ == Seq::<Seq<char>>::empty(),
    {
        let h = CommandHistory { entries: Vec::new() };
        assert(h@ =~= Seq::<Seq<char>>::empty());
        h
    }

    pub fn len(&self) -> (n: usize)
        ensures
            n == self@.len(),
    {
        self.entries.len()
    }

    /// The command at `i`, oldest first.
    pub fn get(&self, i: usize) -> (c: &[char])
        requires
            i < self@.len(),
        ensures
            c@ == self@[i as int],
    {
        self.entries[i].as_slice()
    }

    /// Offers `command` to the history (see `history_add`); says whether it
    /// was kept, which is when the history file is to be written again.
    pub fn add(&mut self, command: &[char]) -> (kept: bool)
        requires
            old(self).wf(),
        ensures
            final(self).wf(),
            final(self)@ == history_add(old(self)@, command@),
            kept == history_accepts(old(self)@, command@),
    {
        let n = self.entries.len();
        if n > 0 {
            let last = self.entries[n - 1].as_slice();
            assert(last@ == old(self)@.last());
            if same_chars(last, command) {
                return false;
            }
        }
        let t = crate::commands::trim_chars(command);
        if crate::commands::chars_eq(t.as_slice(), "history") {
            return false;
        }
        if crate::commands::str_bytes_upto(command, MAX_COMMAND_LEN) > MAX_COMMAND_LEN {
            return false;
        }
        let entry = copy_range(command, 0, command.len());
        assert(entry@ =~= command@);
        let ghost before = self@;
        if n >= MAX_HISTORY_ENTRIES {
            self.entries.remove(0);
            assert(self@ =~= before.drop_first());
        }
        let ghost mid = self@;
        self.entries.push(entry);
        assert(self@ =~= mid.push(command@));
        true
    }

    /// The history file's text; over `MAX_HISTORY_FILE` bytes it is
    /// refused with "History content too large".
    pub fn file_content(&self) -> (r: Result<Vec<char>, &'static str>)
        ensures
            str_bytes(history_text(self@)) <= MAX_HISTORY_FILE ==> (r matches Ok(t) && t@ == history_text(self@)),
            str_bytes(history_text(self@)) > MAX_HISTORY_FILE ==> r == Err::<Vec<char>, &'static str>(
                "History content too large",
            ),
    {
        let mut text: Vec<char> = Vec::new();
        let mut bytes: usize = 0;
        let mut i: usize = 0;
        proof {
            assert(self@.take(0) =~= Seq::<Seq<char>>::empty());
        }
        while i < self.entries.len()
            invariant
                i <= self@.len(),
                text@ == history_text(self@.take(i as int)),
                bytes == str_bytes(text@),
                bytes <= MAX_HISTORY_FILE,
            decreases self@.len() - i,
        {
            let ghost before = text@;
            let cb = crate::commands::str_bytes_upto(self.entries[i].as_slice(), MAX_HISTORY_FILE);
            assert(self.entries@[i as int]@ == self@[i as int]);
            if bytes + cb + 1 > MAX_HISTORY_FILE {
                proof {
                    lemma_history_text_step(self@, i as int);
                    lemma_str_bytes_append(before, self@[i as int]);
                    lemma_str_bytes_append(before + self@[i as int], seq!['\n']);
                    lemma_newline_bytes();
                    lemma_history_text_grows(self@, i + 1);
                }
                return Err("History content too large");
            }
            let mut piece = copy_range(self.entries[i].as_slice(), 0, self.entries[i].len());
            assert(piece@ =~= self@[i as int]);
            text.append(&mut piece);
            text.push('\n');
            proof {
                lemma_history_text_step(self@, i as int);
                lemma_str_bytes_append(before, self@[i as int]);
                lemma_str_bytes_append(before + self@[i as int], seq!['\n']);
                lemma_newline_bytes();
                assert(text@ =~= before + self@[i as int] + seq!['\n']);
            }
            bytes = bytes + cb + 1;
            i = i + 1;
        }
        assert(self@.take(i as int) =~= self@);
        Ok(text)
    }

    /// The history a history file's text holds (see `history_of_text`).
    pub fn load(content: &[char]) -> (h: Self)
        ensures
            h.wf(),
            h@ == history_of_text(content@),
    {
        let lines = split_lines(content);
        let mut h = CommandHistory::new();
        let mut i: usize = 0;
        proof {
            assert(texts(lines@).skip(0) =~= texts(lines@));
        }
        while i < lines.len()
            invariant
                h.wf(),
                i <= lines@.len(),
                history_of_text(content@) == history_from_lines(texts(lines@).skip(i as int), h@),
            decreases lines@.len() - i,
        {
            let ghost rest = texts(lines@).skip(i as int);
            assert(rest.drop_first() =~= texts(lines@).skip(i + 1));
            assert(rest[0] == lines@[i as int]@);
            if h.entries.len() >= MAX_HISTORY_ENTRIES {
                return h;
            }
            let t = crate::commands::trim_chars(lines[i].as_slice());
            if t.len() > 0 && crate::commands::str_bytes_upto(t.as_slice(), MAX_COMMAND_LEN) <= MAX_COMMAND_LEN {
                let ghost before = h@;
                h.entries.push(t);
                assert(h@ =~= before.push(t@));
            }
            i = i + 1;
        }
        h
    }
}

proof fn lemma_newline_bytes()
    ensures
        str_bytes(seq!['\n']) == 1,
{
    assert(seq!['\n'].drop_last() =~= Seq::<char>::empty());
    assert(char_bytes('\n') == 1);
    assert(seq!['\n'].last() == '\n');
    assert(str_bytes(Seq::<char>::empty()) == 0);
    assert(str_bytes(seq!['\n']) == str_bytes(seq!['\n'].drop_last()) + char_bytes(seq!['\n'].last()));
}

proof fn lemma_history_text_step(h: Seq<Seq<char>>, i: int)
    requires
        0 <= i < h.len(),
    ensures
        history_text(h.take(i + 1)) == history_text(h.take(i)) + h[i] + seq!['\n'],
{
    assert(h.take(i + 1).drop_last() =~= h.take(i));
}

/// A longer prefix of the history makes no shorter file.
proof fn lemma_history_text_grows(h: Seq<Seq<char>>, k: int)
    requires
        0 <= k <= h.len(),
    ensures
        str_bytes(history_text(h.take(k))) <= str_bytes(history_text(h)),
    decreases h.len() - k,
{
    if k < h.len() {
        lemma_history_text_grows(h, k + 1);
        lemma_history_text_step(h, k);
        lemma_str_bytes_append(history_text(h.take(k)), h[k]);
        lemma_str_bytes_append(history_text(h.take(k)) + h[k], seq!['\n']);
        crate::commands::lemma_str_bytes_nonneg(h[k]);
        lemma_newline_bytes();
    } else {
        assert(h.take(k) =~= h);
    }
}

/// Whether `a` and `b` hold the same characters.
fn same_chars(a: &[char], b: &[char]) -> (r: bool)
    ensures
        r == (a@ == b@),
{
    if a.len() != b.len() {
        return false;
    }
    let mut i: usize = 0;
    while i < a.len()
        invariant
            a@.len() == b@.len(),
            i <= a@.len(),
            forall|k: int| 0 <= k < i ==> a@[k] == b@[k],
        decreases a@.len() - i,
    {
        if a[i] != b[i] {
            return false;
        }
        i = i + 1;
    }
    assert(a@ =~= b@);
    true
}

/// The non-empty lines of `s`.
fn split_lines(s: &[char]) -> (r: Vec<Vec<char>>)
    ensures
        texts(r@) == lines_from(s@, Seq::empty()),
{
    let n = s.len();
    let mut out: Vec<Vec<char>> = Vec::new();
    let mut cur: Vec<char> = Vec::new();
    let mut i: usize = 0;
    assert(s@.skip(0) =~= s@);
    assert(texts(out@) + lines_from(s@, cur@) =~= lines_from(s@, cur@));
    while i < n
        invariant
            n == s@.len(),
            i <= n,
            lines_from(s@, Seq::empty()) == texts(out@) + lines_from(s@.skip(i as int), cur@),
        decreases n - i,
    {
        let ghost rest = s@.skip(i as int);
        assert(rest.drop_first() =~= s@.skip(i + 1));
        assert(rest[0] == s@[i as int]);
        if s[i] == '\n' {
            if cur.len() > 0 {
                let ghost before = out@;
                out.push(cur);
                assert(texts(out@) =~= texts(before) + seq![cur@]);
            }
            cur = Vec::new();
        } else {
            cur.push(s[i]);
        }
        i = i + 1;
    }
    if cur.len() > 0 {
        let ghost before = out@;
        let ghost last = cur@;
        out.push(cur);
        assert(texts(out@) =~= texts(before) + seq![last]);
    } else {
        assert(texts(out@) + Seq::<Seq<char>>::empty() =~= texts(out@));
    }
    out
}

/// Offering the same command twice in a row keeps it at most once.
pub proof fn law_history_add_idempotent(h: Seq<Seq<char>>, command: Seq<char>)
    ensures
        history_add(history_add(h, command), command) == history_add(h, command),
{
    let h1 = history_add(h, command);
    if history_accepts(h, command) {
        assert(h1.last() == command);
    }
}

/// Whatever is offered, the history keeps at most `MAX_HISTORY_ENTRIES`
/// commands, and a kept command is the newest one.
pub proof fn law_history_bounded(h: Seq<Seq<char>>, command: Seq<char>)
    requires
        h.len() <= MAX_HISTORY_ENTRIES,
    ensures
        history_add(h, command).len() <= MAX_HISTORY_ENTRIES,
        history_accepts(h, command) ==> history_add(h, command).last() == command,
{
}

/// A command the history file keeps as it is: not blank, without white
/// space at either end, without a newline, and within `MAX_COMMAND_LEN`
/// bytes.
pub open spec fn storable(c: Seq<char>) -> bool {
    &&& c.len() > 0
    &&& trim(c) == c
    &&& !c.contains('\n')
    &&& str_bytes(c) <= MAX_COMMAND_LEN
}

proof fn lemma_history_text_front(h: Seq<Seq<char>>)
    requires
        h.len() > 0,
    ensures
        history_text(h) == h[0] + seq!['\n'] + history_text(h.drop_first()),
    decreases h.len(),
{
    if h.len() == 1 {
        assert(h.drop_last() =~= Seq::<Seq<char>>::empty());
        assert(h.drop_first() =~= Seq::<Seq<char>>::empty());
        assert(history_text(h) =~= h[0] + seq!['\n'] + history_text(h.drop_first()));
    } else {
        lemma_history_text_front(h.drop_last());
        assert(h.drop_last().drop_first() =~= h.drop_first().drop_last());
        assert(h.drop_last()[0] == h[0]);
        assert(h.drop_first().last() == h.last());
        assert(history_text(h) =~= h[0] + seq!['\n'] + history_text(h.drop_first()));
    }
}

proof fn lemma_lines_of_line(e: Seq<char>, rest: Seq<char>, cur: Seq<char>)
    requires
        !e.contains('\n'),
    ensures
        lines_from(e + seq!['\n'] + rest, cur) == (if (cur + e).len() > 0 {
            seq![cur + e]
        } else {
            Seq::empty()
        }) + lines_from(rest, Seq::empty()),
    decreases e.len(),
{
    let s = e + seq!['\n'] + rest;
    if e.len() == 0 {
        assert(s =~= seq!['\n'] + rest);
        assert(s.drop_first() =~= rest);
        assert(cur + e =~= cur);
    } else {
        assert(s[0] == e[0]);
        assert(e[0] != '\n') by {
            if e[0] == '\n' {
                assert(e.contains('\n'));
            }
        }
        assert(s.drop_first() =~= e.drop_first() + seq!['\n'] + rest);
        assert(!e.drop_first().contains('\n')) by {
            if e.drop_first().contains('\n') {
                let k = choose|k: int| 0 <= k < e.drop_first().len() && e.drop_first()[k] == '\n';
                assert(e[k + 1] == '\n');
            }
        }
        lemma_lines_of_line(e.drop_first(), rest, cur.push(e[0]));
        assert(cur.push(e[0]) + e.drop_first() =~= cur + e);
    }
}

proof fn lemma_lines_of_history(h: Seq<Seq<char>>)
    requires
        forall|i: int| 0 <= i < h.len() ==> storable(#[trigger] h[i]),
    ensures
        lines_from(history_text(h), Seq::empty()) == h,
    decreases h.len(),
{
    if h.len() == 0 {
        assert(lines_from(Seq::<char>::empty(), Seq::<char>::empty()) =~= Seq::<Seq<char>>::empty());
    } else {
        lemma_history_text_front(h);
        assert(storable(h[0]));
        lemma_lines_of_line(h[0], history_text(h.drop_first()), Seq::empty());
        assert(Seq::<char>::empty() + h[0] =~= h[0]);
        assert forall|i: int| 0 <= i < h.drop_first().len() implies storable(#[trigger] h.drop_first()[i]) by {
            assert(h.drop_first()[i] == h[i + 1]);
        }
        lemma_lines_of_history(h.drop_first());
        assert(seq![h[0]] + h.drop_first() =~= h);
    }
}

proof fn lemma_history_from_storable(lines: Seq<Seq<char>>, acc: Seq<Seq<char>>)
    requires
        forall|i: int| 0 <= i < lines.len() ==> storable(#[trigger] lines[i]),
        acc.len() + lines.len() <= MAX_HISTORY_ENTRIES,
    ensures
        history_from_lines(lines, acc) == acc + lines,
    decreases lines.len(),
{
    if lines.len() == 0 {
        assert(acc + lines =~= acc);
    } else {
        assert(storable(lines[0]));
        assert forall|i: int| 0 <= i < lines.drop_first().len() implies storable(#[trigger] lines.drop_first()[i]) by {
            assert(lines.drop_first()[i] == lines[i + 1]);
        }
        lemma_history_from_storable(lines.drop_first(), acc.push(lines[0]));
        assert(acc.push(lines[0]) + lines.drop_first() =~= acc + lines);
    }
}

/// Writing the history to its file and reading the file back gives the
/// same history, when every command is storable and there are at most
/// `MAX_HISTORY_ENTRIES` of them.
pub proof fn law_history_file_round_trip(h: Seq<Seq<char>>)
    requires
        h.len() <= MAX_HISTORY_ENTRIES,
        forall|i: int| 0 <= i < h.len() ==> storable(#[trigger] h[i]),
    ensures
        history_of_text(history_text(h)) == h,
{
    lemma_lines_of_history(h);
    lemma_history_from_storable(h, Seq::empty());
    assert(Seq::<Seq<char>>::empty() + h =~= h);
}

/// Arrow keys of the escape sequences `ESC [ A` to `ESC [ D`.
#[derive(Debug, Clone, Copy, PartialEq, Eq, Structural)]
pub enum EscapeSequence {
    UpArrow,
    DownArrow,
    RightArrow,
    LeftArrow,
}

/// The arrow key that `ESC [` followed by `ch` encodes.
pub open spec fn arrow_of(ch: u8) -> Option<EscapeSequence> {
    if ch == 0x41 {
        Some(EscapeSequence::UpArrow)
    } else if ch == 0x42 {
        Some(EscapeSequence::DownArrow)
    } else if ch == 0x43 {
        Some(EscapeSequence::RightArrow)
    } else if ch == 0x44 {
        Some(EscapeSequence::LeftArrow)
    } else {
        None
    }
}

/// Where the editor is within an escape sequence.
#[derive(Debug, Clone, Copy, PartialEq, Eq, Structural)]
pub enum EscapeState {
    Normal,
    /// After `ESC`.
    Escape,
    /// After `ESC [`.
    Bracket,
}

/// What one key does to the line being typed at the kernel shell.
#[derive(Debug, Clone, Copy, PartialEq, Eq, Structural)]
pub enum EditEffect {
    /// Return or newline: the line is done.
    Submit,
    /// The last character was erased.
    Erase,
    /// The character was added and is shown.
    Echo(u8),
    /// The line on screen, of the given length, is replaced by the new line.
    Replace(usize),
    /// Nothing to show.
    Ignore,
}

/// The kernel shell's line editor: the line typed, the history entry shown
/// (when browsing the history with the arrow keys) and the line that was
/// being typed before browsing began.
pub struct HistoryEditor {
    buffer: Vec<u8>,
    history_index: Option<usize>,
    current_input: Vec<u8>,
    escape: EscapeState,
}

/// `s` cut to at most `MAX_COMMAND_LEN` bytes.
pub open spec fn capped(s: Seq<u8>) -> Seq<u8> {
    if s.len() <= MAX_COMMAND_LEN { s } else { s.take(MAX_COMMAND_LEN as int) }
}

impl HistoryEditor {
    pub closed spec fn view(&self) -> Seq<u8> {
        self.buffer@
    }

    pub closed spec fn index(&self) -> Option<usize> {
        self.history_index
    }

    pub closed spec fn saved_input(&self) -> Seq<u8> {
        self.current_input@
    }

    pub closed spec fn escape_state(&self) -> EscapeState {
        self.escape
    }

    pub open spec fn wf(&self) -> bool {
        &&& self@.len() <= MAX_COMMAND_LEN
        &&& self.saved_input().len() <= MAX_COMMAND_LEN
    }

    /// An empty line, not browsing the history.
    pub fn new() -> (e: Self)
        ensures
            e.wf(),
            e@ == Seq::<u8>::empty(),
            e.index() is None,
            e.saved_input() == Seq::<u8>::empty(),
            e.escape_state() == EscapeState::Normal,
    {
        HistoryEditor { buffer: Vec::new(), history_index: None, current_input: Vec::new(), escape: EscapeState::Normal }
    }

    /// The bytes typed so far.
    pub fn line(&self) -> (l: &[u8])
        ensures
            l@ == self@,
    {
        self.buffer.as_slice()
    }

    /// The history entry shown, while browsing.
    pub fn history_index(&self) -> (i: Option<usize>)
        ensures
            i == self.index(),
    {
        self.history_index
    }

    /// Starts a new line.
    pub fn clear(&mut self)
        ensures
            final(self).wf(),
            final(self)@ == Seq::<u8>::empty(),
            final(self).index() is None,
            final(self).saved_input() == Seq::<u8>::empty(),
            final(self).escape_state() == EscapeState::Normal,
    {
        self.buffer.clear();
        self.history_index = None;
        self.current_input.clear();
        self.escape = EscapeState::Normal;
    }

    fn load(&mut self, entry: &[u8])
        ensures
            final(self)@ == capped(entry@),
            final(self).index() == old(self).index(),
            final(self).saved_input() == old(self).saved_input(),
            final(self).escape_state() == old(self).escape_state(),
    {
        let n = if entry.len() <= MAX_COMMAND_LEN { entry.len() } else { MAX_COMMAND_LEN };
        let mut b: Vec<u8> = Vec::new();
        let mut i: usize = 0;
        while i < n
            invariant
                n <= entry@.len(),
                n == (if entry@.len() <= MAX_COMMAND_LEN { entry@.len() } else { MAX_COMMAND_LEN as nat }),
                i <= n,
                b@ == entry@.take(i as int),
            decreases n - i,
        {
            b.push(entry[i]);
            i = i + 1;
            assert(b@ =~= entry@.take(i as int));
        }
        assert(b@ =~= capped(entry@));
        self.buffer = b;
    }

    /// Up arrow: the previous history entry (the newest one when not yet
    /// browsing, saving the line typed so far); at the oldest entry, or with
    /// no history, nothing changes.
    fn up(&mut self, history: &[Vec<u8>]) -> (effect: EditEffect)
        requires
            old(self).wf(),
            old(self).index() matches Some(i) ==> i < history@.len(),
        ensures
            final(self).wf(),
            final(self).escape_state() == old(self).escape_state(),
            history@.len() == 0 || old(self).index() == Some(0usize) ==> effect == EditEffect::Ignore
                && final(self)@ == old(self)@ && final(self).index() == old(self).index()
                && final(self).saved_input() == old(self).saved_input(),
            history@.len() > 0 && old(self).index() != Some(0usize) ==> {
                let k = match old(self).index() {
                    None => history@.len() - 1,
                    Some(i) => i - 1,
                };
                &&& effect == EditEffect::Replace(old(self)@.len() as usize)
                &&& final(self).index() == Some(k as usize)
                &&& final(self)@ == capped(history@[k]@)
                &&& final(self).saved_input() == (if old(self).index() is None {
                    old(self)@
                } else {
                    old(self).saved_input()
                })
            },
    {
        if history.len() == 0 {
            return EditEffect::Ignore;
        }
        let shown = self.buffer.len();
        let k = match self.history_index {
            None => {
                self.current_input = copy_bytes(self.buffer.as_slice());
                history.len() - 1
            },
            Some(i) => {
                if i == 0 {
                    return EditEffect::Ignore;
                }
                i - 1
            },
        };
        self.history_index = Some(k);
        self.load(history[k].as_slice());
        EditEffect::Replace(shown)
    }

    /// Down arrow: the next history entry; past the newest, the line that
    /// was being typed comes back and browsing ends; when not browsing,
    /// nothing changes.
    fn down(&mut self, history: &[Vec<u8>]) -> (effect: EditEffect)
        requires
            old(self).wf(),
            old(self).index() matches Some(i) ==> i < history@.len(),
        ensures
            final(self).wf(),
            final(self).escape_state() == old(self).escape_state(),
            final(self).saved_input() == old(self).saved_input(),
            history@.len() == 0 || old(self).index() is None ==> effect == EditEffect::Ignore
                && final(self)@ == old(self)@ && final(self).index() == old(self).index(),
            old(self).index() matches Some(i) ==> (history@.len() > 0 ==> {
                &&& effect == EditEffect::Replace(old(self)@.len() as usize)
                &&& i + 1 < history@.len() ==> final(self).index() == Some((i + 1) as usize)
                    && final(self)@ == capped(history@[i + 1]@)
                &&& i + 1 >= history@.len() ==> final(self).index() is None
                    && final(self)@ == old(self).saved_input()
            }),
    {
        if history.len() == 0 {
            return EditEffect::Ignore;
        }
        match self.history_index {
            None => EditEffect::Ignore,
            Some(i) => {
                let shown = self.buffer.len();
                if i + 1 < history.len() {
                    self.history_index = Some(i + 1);
                    self.load(history[i + 1].as_slice());
                } else {
                    self.history_index = None;
                    self.buffer = copy_bytes(self.current_input.as_slice());
                }
                EditEffect::Replace(shown)
            },
        }
    }

    /// Takes key `ch` with `history` (oldest first) to browse: return or
    /// newline submits; backspace or delete erases; `ESC [ A` and `ESC [ B`
    /// browse the history up and down, other escape sequences are dropped; a
    /// printable character is added while the line is shorter than
    /// `MAX_COMMAND_LEN - 1` bytes (typing leaves the history); anything
    /// else is ignored. While not browsing, the line typed is remembered.
    pub fn key(&mut self, ch: u8, history: &[Vec<u8>]) -> (effect: EditEffect)
        requires
            old(self).wf(),
            old(self).index() matches Some(i) ==> i < history@.len(),
        ensures
            final(self).wf(),
            final(self).index() matches Some(i) ==> i < history@.len(),
            old(self).escape_state() == EscapeState::Escape ==> effect == EditEffect::Ignore && final(self)@ == old(self)@
                && final(self).index() == old(self).index() && final(self).escape_state() == (if ch == 0x5b {
                EscapeState::Bracket
            } else {
                EscapeState::Normal
            }),
            old(self).escape_state() == EscapeState::Bracket ==> final(self).escape_state() == EscapeState::Normal && (
            if arrow_of(ch) == Some(EscapeSequence::UpArrow) {
                history@.len() > 0 && old(self).index() != Some(0usize) ==> final(self).index() == Some(
                    (match old(self).index() {
                        None => history@.len() - 1,
                        Some(i) => i - 1,
                    }) as usize,
                ) && final(self)@ == capped(history@[(match old(self).index() {
                    None => history@.len() - 1,
                    Some(i) => i - 1,
                })]@) && effect == EditEffect::Replace(
                    old(self)@.len() as usize,
                )
            } else if arrow_of(ch) == Some(EscapeSequence::DownArrow) {
                (old(self).index() matches Some(i) ==> (history@.len() > 0 ==> effect == EditEffect::Replace(
                    old(self)@.len() as usize,
                ) && (if i + 1 < history@.len() {
                    final(self).index() == Some((i + 1) as usize) && final(self)@ == capped(history@[i + 1]@)
                } else {
                    final(self).index() is None && final(self)@ == old(self).saved_input()
                })))
            } else {
                effect == EditEffect::Ignore && final(self)@ == old(self)@ && final(self).index() == old(self).index()
            }),
            old(self).escape_state() == EscapeState::Normal ==> {
                &&& (ch == 13 || ch == 10) ==> effect == EditEffect::Submit && final(self)@ == old(self)@
                &&& ch == 0x1b ==> effect == EditEffect::Ignore && final(self)@ == old(self)@
                    && final(self).escape_state() == EscapeState::Escape
                &&& (ch == 8 || ch == 127) ==> (if old(self)@.len() > 0 {
                    effect == EditEffect::Erase && final(self)@ == old(self)@.drop_last()
                } else {
                    effect == EditEffect::Ignore && final(self)@ == old(self)@
                })
                &&& (32 <= ch <= 126) ==> (if old(self)@.len() < MAX_COMMAND_LEN - 1 {
                    effect == EditEffect::Echo(ch) && final(self)@ == old(self)@.push(ch)
                        && final(self).index() is None
                } else {
                    effect == EditEffect::Ignore && final(self)@ == old(self)@
                })
                &&& !(ch == 13 || ch == 10 || ch == 8 || ch == 127 || ch == 0x1b || 32 <= ch <= 126) ==> effect
                    == EditEffect::Ignore && final(self)@ == old(self)@
                &&& ch != 0x1b ==> final(self).escape_state() == EscapeState::Normal
                &&& (effect is Erase || effect is Ignore || effect is Submit) ==> final(self).index() == old(self).index()
                &&& old(self).index() is None && (effect is Erase || effect is Echo) ==> final(self).saved_input()
                    == final(self)@
                &&& !(old(self).index() is None && (effect is Erase || effect is Echo)) ==> final(self).saved_input()
                    == old(self).saved_input()
            },
    {
        match self.escape {
            EscapeState::Escape => {
                self.escape = if ch == 0x5b { EscapeState::Bracket } else { EscapeState::Normal };
                EditEffect::Ignore
            },
            EscapeState::Bracket => {
                self.escape = EscapeState::Normal;
                if ch == 0x41 {
                    self.up(history)
                } else if ch == 0x42 {
                    self.down(history)
                } else {
                    EditEffect::Ignore
                }
            },
            EscapeState::Normal => {
                if ch == 13 || ch == 10 {
                    EditEffect::Submit
                } else if ch == 8 || ch == 127 {
                    if self.buffer.len() > 0 {
                        self.buffer.pop();
                        if self.history_index.is_none() {
                            self.current_input = copy_bytes(self.buffer.as_slice());
                        }
                        EditEffect::Erase
                    } else {
                        EditEffect::Ignore
                    }
                } else if ch == 0x1b {
                    self.escape = EscapeState::Escape;
                    EditEffect::Ignore
                } else if 32 <= ch && ch <= 126 {
                    if self.buffer.len() < MAX_COMMAND_LEN - 1 {
                        self.buffer.push(ch);
                        if self.history_index.is_none() {
                            self.current_input = copy_bytes(self.buffer.as_slice());
                        } else {
                            self.history_index = None;
                        }
                        EditEffect::Echo(ch)
                    } else {
                        EditEffect::Ignore
                    }
                } else {
                    EditEffect::Ignore
                }
            },
        }
    }
}

/// A copy of `b`.
fn copy_bytes(b: &[u8]) -> (r: Vec<u8>)
    ensures
        r@ == b@,
{
    let mut r: Vec<u8> = Vec::new();
    let mut i: usize = 0;
    while i < b.len()
        invariant
            i <= b@.len(),
            r@ == b@.take(i as int),
        decreases b@.len() - i,
    {
        r.push(b[i]);
        i = i + 1;
        assert(r@ =~= b@.take(i as int));
    }
    assert(r@ =~= b@);
    r
}

} // verus!
