//! The shell's command language: reading a command line into a command,
//! and resolving paths against the working directory.
use vstd::prelude::*;

verus! {

/// Most path components a resolved path keeps.
pub const MAX_COMPONENTS: usize = 32;
/// Most bytes of a resolved path.
pub const MAX_PATH_LEN: usize = 256;

/// Unicode white space (the characters `char::is_whitespace` accepts).
pub open spec fn is_ws(c: char) -> bool {
    c == ' ' || c == '\t' || c == '\n' || c == '\u{0B}' || c == '\u{0C}' || c == '\r' || c == '\u{85}'
        || c == '\u{A0}' || c == '\u{1680}' || ('\u{2000}' <= c && c <= '\u{200A}') || c == '\u{2028}'
        || c == '\u{2029}' || c == '\u{202F}' || c == '\u{205F}' || c == '\u{3000}'
}

pub open spec fn trim_start(s: Seq<char>) -> Seq<char>
    decreases s.len(),
{
    if s.len() > 0 && is_ws(s[0]) {
        trim_start(s.drop_first())
    } else {
        s
    }
}

pub open spec fn trim_end(s: Seq<char>) -> Seq<char>
    decreases s.len(),
{
    if s.len() > 0 && is_ws(s.last()) {
        trim_end(s.drop_last())
    } else {
        s
    }
}

/// `s` without leading and trailing white space.
pub open spec fn trim(s: Seq<char>) -> Seq<char> {
    trim_end(trim_start(s))
}

pub open spec fn starts_with(s: Seq<char>, p: Seq<char>) -> bool {
    s.len() >= p.len() && s.take(p.len() as int) == p
}

/// The non-empty parts of `s` between slashes, given the part `cur` read so far.
pub open spec fn split_from(s: Seq<char>, cur: Seq<char>) -> Seq<Seq<char>>
    decreases s.len(),
{
    if s.len() == 0 {
        if cur.len() > 0 { seq![cur] } else { Seq::empty() }
    } else if s[0] == '/' {
        (if cur.len() > 0 { seq![cur] } else { Seq::empty() }) + split_from(s.drop_first(), Seq::empty())
    } else {
        split_from(s.drop_first(), cur.push(s[0]))
    }
}

/// The non-empty components of path `s`.
pub open spec fn components(s: Seq<char>) -> Seq<Seq<char>> {
    split_from(s, Seq::empty())
}

/// The directory stack after walking `comps` from `stack`: "." stays, ".."
/// goes up (not above the root), a name goes down; a name that would make
/// the stack deeper than 32 ends the walk.
pub open spec fn walk(stack: Seq<Seq<char>>, comps: Seq<Seq<char>>) -> Seq<Seq<char>>
    decreases comps.len(),
{
    if comps.len() == 0 {
        stack
    } else {
        let c = comps[0];
        if c == seq!['.'] {
            walk(stack, comps.drop_first())
        } else if c == seq!['.', '.'] {
            walk(if stack.len() > 0 { stack.drop_last() } else { stack }, comps.drop_first())
        } else if stack.len() >= MAX_COMPONENTS {
            stack
        } else {
            walk(stack.push(c), comps.drop_first())
        }
    }
}

/// Bytes of `c` in UTF-8.
pub open spec fn char_bytes(c: char) -> int {
    if (c as u32) < 0x80 { 1 } else if (c as u32) < 0x800 { 2 } else if (c as u32) < 0x1_0000 { 3 } else { 4 }
}

/// Bytes of `s` in UTF-8.
pub open spec fn str_bytes(s: Seq<char>) -> int
    decreases s.len(),
{
    if s.len() == 0 { 0 } else { str_bytes(s.drop_last()) + char_bytes(s.last()) }
}

/// `acc` followed by the components from `i` on, each after a slash, as long
/// as the path stays within 256 bytes; the first piece that does not fit
/// ends it (a slash may fit where its component does not).
pub open spec fn join_from(comps: Seq<Seq<char>>, i: int, acc: Seq<char>) -> Seq<char>
    decreases comps.len() - i,
{
    if i >= comps.len() || i < 0 {
        acc
    } else {
        let with_slash = if i > 0 { acc.push('/') } else { acc };
        if i > 0 && str_bytes(acc) + 1 > MAX_PATH_LEN {
            acc
        } else if str_bytes(with_slash) + str_bytes(comps[i]) > MAX_PATH_LEN {
            with_slash
        } else {
            join_from(comps, i + 1, with_slash + comps[i])
        }
    }
}

/// The absolute path `arg` names from working directory `cwd`.
pub open spec fn resolve(cwd: Seq<char>, arg: Seq<char>) -> Seq<char> {
    let start = if arg.len() > 0 && arg[0] == '/' {
        Seq::empty()
    } else {
        let c = components(cwd);
        c.take(if c.len() < MAX_COMPONENTS { c.len() as int } else { MAX_COMPONENTS as int })
    };
    join_from(walk(start, components(arg)), 0, seq!['/'])
}

/// The command a line asks for, before it is run.
#[derive(Debug)]
pub enum Command {
    Help,
    Version,
    Memory,
    Heap,
    HeapReset,
    Mmap,
    Devices,
    Graphics,
    GraphicsTest,
    Syscall,
    Fscheck,
    Config,
    /// List a directory: the working directory, or the path given.
    Ls(Option<Vec<char>>),
    /// Show a file (the path is resolved).
    Cat(Vec<char>),
    Echo(Vec<char>),
    Pwd,
    Touch(Vec<char>),
    Mkdir(Vec<char>),
    Rm(Vec<char>),
    Rmdir(Vec<char>),
    /// Change directory (the argument is resolved when the change is made).
    Cd(Vec<char>),
    Shutdown,
    Reboot,
    /// The command needs an argument; its usage is shown.
    Usage(UsageOf),
    Empty,
    /// Run the program at this (resolved) path.
    Run(Vec<char>),
}

#[derive(Debug, Clone, Copy, PartialEq, Eq, Structural)]
pub enum UsageOf {
    Cat,
    Touch,
    Mkdir,
    Rm,
    Rmdir,
}

/// `Command` with its texts as sequences.
pub enum CommandView {
    Help,
    Version,
    Memory,
    Heap,
    HeapReset,
    Mmap,
    Devices,
    Graphics,
    GraphicsTest,
    Syscall,
    Fscheck,
    Config,
    Ls(Option<Seq<char>>),
    Cat(Seq<char>),
    Echo(Seq<char>),
    Pwd,
    Touch(Seq<char>),
    Mkdir(Seq<char>),
    Rm(Seq<char>),
    Rmdir(Seq<char>),
    Cd(Seq<char>),
    Shutdown,
    Reboot,
    Usage(UsageOf),
    Empty,
    Run(Seq<char>),
}

impl View for Command {
    type V = CommandView;

    open spec fn view(&self) -> CommandView {
        match self {
            Command::Help => CommandView::Help,
            Command::Version => CommandView::Version,
            Command::Memory => CommandView::Memory,
            Command::Heap => CommandView::Heap,
            Command::HeapReset => CommandView::HeapReset,
            Command::Mmap => CommandView::Mmap,
            Command::Devices => CommandView::Devices,
            Command::Graphics => CommandView::Graphics,
            Command::GraphicsTest => CommandView::GraphicsTest,
            Command::Syscall => CommandView::Syscall,
            Command::Fscheck => CommandView::Fscheck,
            Command::Config => CommandView::Config,
            Command::Ls(p) => CommandView::Ls(match p {
                Some(v) => Some(v@),
                None => None,
            }),
            Command::Cat(p) => CommandView::Cat(p@),
            Command::Echo(m) => CommandView::Echo(m@),
            Command::Pwd => CommandView::Pwd,
            Command::Touch(p) => CommandView::Touch(p@),
            Command::Mkdir(p) => CommandView::Mkdir(p@),
            Command::Rm(p) => CommandView::Rm(p@),
            Command::Rmdir(p) => CommandView::Rmdir(p@),
            Command::Cd(p) => CommandView::Cd(p@),
            Command::Shutdown => CommandView::Shutdown,
            Command::Reboot => CommandView::Reboot,
            Command::Usage(u) => CommandView::Usage(*u),
            Command::Empty => CommandView::Empty,
            Command::Run(p) => CommandView::Run(p@),
        }
    }
}

/// The texts of `v`.
pub open spec fn views(v: Seq<Vec<char>>) -> Seq<Seq<char>> {
    v.map_values(|x: Vec<char>| x@)
}

pub fn is_whitespace(c: char) -> (b: bool)
    ensures
        b == is_ws(c),
{
    c == ' ' || c == '\t' || c == '\n' || c == '\u{0B}' || c == '\u{0C}' || c == '\r' || c == '\u{85}'
        || c == '\u{A0}' || c == '\u{1680}' || ('\u{2000}' <= c && c <= '\u{200A}') || c == '\u{2028}'
        || c == '\u{2029}' || c == '\u{202F}' || c == '\u{205F}' || c == '\u{3000}'
}

pub(crate) fn copy_range(s: &[char], from: usize, to: usize) -> (r: Vec<char>)
    requires
        from <= to <= s@.len(),
    ensures
        r@ == s@.subrange(from as int, to as int),
{
    let mut r: Vec<char> = Vec::new();
    let mut i = from;
    while i < to
        invariant
            from <= i <= to,
            to <= s@.len(),
            r@ == s@.subrange(from as int, i as int),
        decreases to - i,
    {
        r.push(s[i]);
        i = i + 1;
        assert(r@ =~= s@.subrange(from as int, i as int));
    }
    r
}

/// `s` without leading and trailing white space.
pub fn trim_chars(s: &[char]) -> (r: Vec<char>)
    ensures
        r@ == trim(s@),
{
    let n = s.len();
    let mut a: usize = 0;
    assert(s@.skip(0) =~= s@);
    while a < n && is_whitespace(s[a])
        invariant
            n == s@.len(),
            a <= n,
            trim_start(s@) == trim_start(s@.skip(a as int)),
        decreases n - a,
    {
        assert(s@.skip(a as int).drop_first() =~= s@.skip(a + 1));
        a = a + 1;
    }
    let ghost t = s@.skip(a as int);
    assert(trim_start(s@) == t);
    let mut b: usize = n;
    while b > a && is_whitespace(s[b - 1])
        invariant
            n == s@.len(),
            a <= b <= n,
            t == s@.skip(a as int),
            trim_end(t) == trim_end(s@.subrange(a as int, b as int)),
        decreases b - a,
    {
        assert(s@.subrange(a as int, b as int).drop_last() =~= s@.subrange(a as int, b - 1));
        b = b - 1;
    }
    assert(trim_end(s@.subrange(a as int, b as int)) == s@.subrange(a as int, b as int));
    assert(t =~= s@.subrange(a as int, n as int));
    copy_range(s, a, b)
}

/// Whether `s` spells `lit`.
pub fn chars_eq(s: &[char], lit: &str) -> (b: bool)
    ensures
        b == (s@ == lit@),
{
    let n = lit.unicode_len();
    if s.len() != n {
        return false;
    }
    let mut i: usize = 0;
    while i < n
        invariant
            n == lit@.len(),
            n == s@.len(),
            i <= n,
            forall|k: int| 0 <= k < i ==> s@[k] == lit@[k],
        decreases n - i,
    {
        if s[i] != lit.get_char(i) {
            return false;
        }
        i = i + 1;
    }
    assert(s@ =~= lit@);
    true
}

/// Whether `s` begins with `lit`.
pub fn chars_start_with(s: &[char], lit: &str) -> (b: bool)
    ensures
        b == starts_with(s@, lit@),
{
    let n = lit.unicode_len();
    if s.len() < n {
        return false;
    }
    let mut i: usize = 0;
    while i < n
        invariant
            n == lit@.len(),
            n <= s@.len(),
            i <= n,
            forall|k: int| 0 <= k < i ==> s@[k] == lit@[k],
        decreases n - i,
    {
        if s[i] != lit.get_char(i) {
            assert(s@.take(n as int)[i as int] != lit@[i as int]);
            return false;
        }
        i = i + 1;
    }
    assert(s@.take(n as int) =~= lit@);
    true
}

/// The non-empty components of path `s`.
pub fn split_components(s: &[char]) -> (r: Vec<Vec<char>>)
    ensures
        views(r@) == components(s@),
{
    let n = s.len();
    let mut out: Vec<Vec<char>> = Vec::new();
    let mut cur: Vec<char> = Vec::new();
    let mut i: usize = 0;
    assert(s@.skip(0) =~= s@);
    assert(views(out@) + split_from(s@, cur@) =~= split_from(s@, cur@));
    while i < n
        invariant
            n == s@.len(),
            i <= n,
            components(s@) == views(out@) + split_from(s@.skip(i as int), cur@),
        decreases n - i,
    {
        let ghost rest = s@.skip(i as int);
        assert(rest.drop_first() =~= s@.skip(i + 1));
        assert(rest[0] == s@[i as int]);
        if s[i] == '/' {
            if cur.len() > 0 {
                let ghost before = out@;
                out.push(cur);
                assert(views(out@) =~= views(before) + seq![cur@]);
            }
            cur = Vec::new();
        } else {
            cur.push(s[i]);
        }
        i = i + 1;
    }
    if cur.len() > 0 {
        let ghost before = out@;
        let ghost last = cur@;
        out.push(cur);
        assert(views(out@) =~= views(before) + seq![last]);
    } else {
        assert(views(out@) + Seq::<Seq<char>>::empty() =~= views(out@));
    }
    out
}

pub(crate) proof fn lemma_str_bytes_append(a: Seq<char>, b: Seq<char>)
    ensures
        str_bytes(a + b) == str_bytes(a) + str_bytes(b),
    decreases b.len(),
{
    if b.len() == 0 {
        assert(a + b =~= a);
    } else {
        assert((a + b).drop_last() =~= a + b.drop_last());
        lemma_str_bytes_append(a, b.drop_last());
    }
}

pub(crate) proof fn lemma_str_bytes_prefix(s: Seq<char>, k: int)
    requires
        0 <= k <= s.len(),
    ensures
        0 <= str_bytes(s.take(k)) <= str_bytes(s),
    decreases s.len(),
{
    if k == s.len() {
        assert(s.take(k) =~= s);
        lemma_str_bytes_nonneg(s);
    } else {
        assert(s.drop_last().take(k) =~= s.take(k));
        lemma_str_bytes_prefix(s.drop_last(), k);
    }
}

pub(crate) proof fn lemma_str_bytes_nonneg(s: Seq<char>)
    ensures
        str_bytes(s) >= 0,
    decreases s.len(),
{
    if s.len() > 0 {
        lemma_str_bytes_nonneg(s.drop_last());
    }
}

pub(crate) fn char_utf8_len(c: char) -> (n: usize)
    ensures
        n == char_bytes(c),
{
    let v = c as u32;
    if v < 0x80 { 1 } else if v < 0x800 { 2 } else if v < 0x1_0000 { 3 } else { 4 }
}

/// The UTF-8 size of `s`, or 257 for anything over 256 bytes.
fn str_bytes_capped(s: &[char]) -> (n: usize)
    ensures
        str_bytes(s@) <= MAX_PATH_LEN ==> n == str_bytes(s@),
        str_bytes(s@) > MAX_PATH_LEN ==> n == MAX_PATH_LEN + 1,
{
    let mut total: usize = 0;
    let mut i: usize = 0;
    while i < s.len()
        invariant
            i <= s@.len(),
            total == str_bytes(s@.take(i as int)),
            total <= MAX_PATH_LEN,
        decreases s@.len() - i,
    {
        assert(s@.take(i + 1).drop_last() =~= s@.take(i as int));
        total = total + char_utf8_len(s[i]);
        i = i + 1;
        if total > MAX_PATH_LEN {
            proof {
                lemma_str_bytes_prefix(s@, i as int);
            }
            return MAX_PATH_LEN + 1;
        }
    }
    assert(s@.take(i as int) =~= s@);
    total
}

/// The UTF-8 size of `s`, or `cap + 1` for anything over `cap` bytes.
pub(crate) fn str_bytes_upto(s: &[char], cap: usize) -> (n: usize)
    requires
        cap < usize::MAX - 4,
    ensures
        str_bytes(s@) <= cap ==> n == str_bytes(s@),
        str_bytes(s@) > cap ==> n == cap + 1,
{
    let mut total: usize = 0;
    let mut i: usize = 0;
    while i < s.len()
        invariant
            cap < usize::MAX - 4,
            i <= s@.len(),
            total == str_bytes(s@.take(i as int)),
            total <= cap,
        decreases s@.len() - i,
    {
        assert(s@.take(i + 1).drop_last() =~= s@.take(i as int));
        total = total + char_utf8_len(s[i]);
        i = i + 1;
        if total > cap {
            proof {
                lemma_str_bytes_prefix(s@, i as int);
            }
            return cap + 1;
        }
    }
    assert(s@.take(i as int) =~= s@);
    total
}

/// `comps` joined after a leading slash, within 256 bytes (see `join_from`).
fn join_path(comps: &Vec<Vec<char>>) -> (r: Vec<char>)
    ensures
        r@ == join_from(views(comps@), 0, seq!['/']),
{
    let ghost cs = views(comps@);
    let mut acc: Vec<char> = Vec::new();
    acc.push('/');
    let mut acc_bytes: usize = 1;
    proof {
        assert(acc@ =~= seq!['/']);
        assert(seq!['/'].drop_last() =~= Seq::<char>::empty());
        assert(char_bytes('/') == 1);
        assert(seq!['/'].last() == '/');
        assert(str_bytes(Seq::<char>::empty()) == 0);
        assert(str_bytes(seq!['/']) == str_bytes(seq!['/'].drop_last()) + char_bytes(seq!['/'].last()));
        assert(str_bytes(seq!['/']) == 1);
    }
    let mut i: usize = 0;
    loop
        invariant_except_break
            join_from(cs, 0, seq!['/']) == join_from(cs, i as int, acc@),
        invariant
            cs == views(comps@),
            i <= comps@.len(),
            acc_bytes == str_bytes(acc@),
            acc_bytes <= MAX_PATH_LEN,
        ensures
            join_from(cs, 0, seq!['/']) == acc@,
        decreases comps@.len() - i,
    {
        if i >= comps.len() {
            break;
        }
        if i > 0 && acc_bytes + 1 > MAX_PATH_LEN {
            break;
        }
        let ghost before = acc@;
        if i > 0 {
            acc.push('/');
            acc_bytes = acc_bytes + 1;
            assert(acc@.drop_last() =~= before);
        }
        let comp = &comps[i];
        assert(cs[i as int] == comp@);
        let cb = str_bytes_capped(comp.as_slice());
        if acc_bytes + cb > MAX_PATH_LEN {
            assert(join_from(cs, i as int, before) == acc@);
            break;
        }
        proof {
            lemma_str_bytes_append(acc@, comp@);
        }
        let mut piece = copy_range(comp.as_slice(), 0, comp.len());
        assert(piece@ =~= comp@);
        acc.append(&mut piece);
        acc_bytes = acc_bytes + cb;
        i = i + 1;
    }
    acc
}

/// The absolute path `arg` names from working directory `cwd`: "." and
/// empty components are dropped, ".." goes up (never above the root), at
/// most 32 components and 256 bytes are kept.
pub fn resolve_path(cwd: &[char], arg: &[char]) -> (r: Vec<char>)
    ensures
        r@ == resolve(cwd@, arg@),
{
    let mut stack: Vec<Vec<char>> = Vec::new();
    let absolute = arg.len() > 0 && arg[0] == '/';
    if !absolute {
        let cwd_comps = split_components(cwd);
        let ghost c = components(cwd@);
        let mut i: usize = 0;
        while i < cwd_comps.len() && i < MAX_COMPONENTS
            invariant
                views(cwd_comps@) == c,
                i <= cwd_comps@.len(),
                i <= MAX_COMPONENTS,
                views(stack@) == c.take(i as int),
            decreases cwd_comps@.len() - i,
        {
            let comp = &cwd_comps[i];
            let piece = copy_range(comp.as_slice(), 0, comp.len());
            let ghost before = stack@;
            stack.push(piece);
            proof {
                assert(piece@ =~= c[i as int]);
                assert(views(stack@) =~= views(before).push(piece@));
                assert(views(stack@) =~= c.take(i + 1));
            }
            i = i + 1;
        }
    }
    let ghost start = views(stack@);
    assert(start == (if absolute {
        Seq::<Seq<char>>::empty()
    } else {
        let c = components(cwd@);
        c.take(if c.len() < MAX_COMPONENTS { c.len() as int } else { MAX_COMPONENTS as int })
    })) by {
        if absolute {
            assert(views(stack@) =~= Seq::<Seq<char>>::empty());
        }
    }
    let comps = split_components(arg);
    let ghost cs = views(comps@);
    proof {
        reveal_strlit(".");
        reveal_strlit("..");
        assert(cs.skip(0) =~= cs);
    }
    let mut j: usize = 0;
    loop
        invariant
            cs == views(comps@),
            j <= comps@.len(),
            walk(start, cs) == walk(views(stack@), cs.skip(j as int)),
            "."@ == seq!['.'],
            ".."@ == seq!['.', '.'],
        ensures
            walk(start, cs) == views(stack@),
        decreases comps@.len() - j,
    {
        if j >= comps.len() {
            break;
        }
        let ghost st = views(stack@);
        let ghost rest = cs.skip(j as int);
        assert(rest[0] == comps@[j as int]@);
        assert(rest.drop_first() =~= cs.skip(j + 1));
        let comp = &comps[j];
        if chars_eq(comp.as_slice(), ".") {
        } else if chars_eq(comp.as_slice(), "..") {
            if stack.len() > 0 {
                let _ = stack.pop();
                assert(views(stack@) =~= st.drop_last());
            }
        } else if stack.len() >= MAX_COMPONENTS {
            break;
        } else {
            let piece = copy_range(comp.as_slice(), 0, comp.len());
            assert(piece@ =~= comp@);
            let ghost before = stack@;
            stack.push(piece);
            assert(views(stack@) =~= views(before).push(piece@));
            assert(views(stack@) =~= st.push(rest[0]));
        }
        j = j + 1;
    }
    join_path(&stack)
}

/// The command line `line` asks for, from working directory `cwd`.
pub open spec fn parse_spec(line: Seq<char>, cwd: Seq<char>) -> CommandView {
    let c = trim(line);
    if c == "help"@ {
        CommandView::Help
    } else if c == "version"@ {
        CommandView::Version
    } else if c == "memory"@ {
        CommandView::Memory
    } else if c == "heap"@ {
        CommandView::Heap
    } else if c == "heap-reset"@ {
        CommandView::HeapReset
    } else if c == "mmap"@ {
        CommandView::Mmap
    } else if c == "devices"@ {
        CommandView::Devices
    } else if c == "graphics"@ {
        CommandView::Graphics
    } else if c == "gfxtest"@ {
        CommandView::GraphicsTest
    } else if c == "syscall"@ {
        CommandView::Syscall
    } else if c == "fscheck"@ {
        CommandView::Fscheck
    } else if c == "config"@ {
        CommandView::Config
    } else if c == "ls"@ {
        CommandView::Ls(None)
    } else if c == "cat"@ {
        CommandView::Usage(UsageOf::Cat)
    } else if c == "echo"@ {
        CommandView::Echo(Seq::empty())
    } else if c == "pwd"@ {
        CommandView::Pwd
    } else if c == "touch"@ {
        CommandView::Usage(UsageOf::Touch)
    } else if c == "mkdir"@ {
        CommandView::Usage(UsageOf::Mkdir)
    } else if c == "rm"@ {
        CommandView::Usage(UsageOf::Rm)
    } else if c == "rmdir"@ {
        CommandView::Usage(UsageOf::Rmdir)
    } else if c == "cd"@ {
        CommandView::Cd(seq!['/'])
    } else if c == "shutdown"@ {
        CommandView::Shutdown
    } else if c == "reboot"@ {
        CommandView::Reboot
    } else if starts_with(c, "ls "@) {
        CommandView::Ls(Some(trim(c.skip(3))))
    } else if starts_with(c, "cat "@) {
        let a = trim(c.skip(4));
        if a.len() == 0 { CommandView::Usage(UsageOf::Cat) } else { CommandView::Cat(resolve(cwd, a)) }
    } else if starts_with(c, "echo "@) {
        CommandView::Echo(c.skip(5))
    } else if starts_with(c, "touch "@) {
        let a = trim(c.skip(6));
        if a.len() == 0 { CommandView::Usage(UsageOf::Touch) } else { CommandView::Touch(resolve(cwd, a)) }
    } else if starts_with(c, "mkdir "@) {
        let a = trim(c.skip(6));
        if a.len() == 0 { CommandView::Usage(UsageOf::Mkdir) } else { CommandView::Mkdir(resolve(cwd, a)) }
    } else if starts_with(c, "rm "@) {
        let a = trim(c.skip(3));
        if a.len() == 0 { CommandView::Usage(UsageOf::Rm) } else { CommandView::Rm(resolve(cwd, a)) }
    } else if starts_with(c, "rmdir "@) {
        let a = trim(c.skip(6));
        if a.len() == 0 { CommandView::Usage(UsageOf::Rmdir) } else { CommandView::Rmdir(resolve(cwd, a)) }
    } else if starts_with(c, "cd "@) {
        CommandView::Cd(trim(c.skip(3)))
    } else if c.len() == 0 {
        CommandView::Empty
    } else {
        CommandView::Run(resolve(cwd, c))
    }
}

/// The part of `s` from `k` on, trimmed.
fn trimmed_rest(s: &[char], k: usize) -> (r: Vec<char>)
    requires
        k <= s@.len(),
    ensures
        r@ == trim(s@.skip(k as int)),
{
    let rest = copy_range(s, k, s.len());
    assert(rest@ =~= s@.skip(k as int));
    trim_chars(rest.as_slice())
}

/// A component a resolved path may hold: not empty, without a slash, and
/// neither "." nor "..".
pub open spec fn plain_component(c: Seq<char>) -> bool {
    &&& c.len() > 0
    &&& !c.contains('/')
    &&& c != seq!['.']
    &&& c != seq!['.', '.']
}

/// A path whose components are all plain.
pub open spec fn canonical_components(p: Seq<char>) -> bool {
    forall|i: int| 0 <= i < components(p).len() ==> plain_component(#[trigger] components(p)[i])
}

proof fn lemma_split_from_plain(c: Seq<char>, cur: Seq<char>)
    requires
        !c.contains('/'),
    ensures
        split_from(c, cur) == (if (cur + c).len() > 0 { seq![cur + c] } else { Seq::<Seq<char>>::empty() }),
    decreases c.len(),
{
    if c.len() == 0 {
        assert(cur + c =~= cur);
    } else {
        assert(c[0] != '/') by {
            if c[0] == '/' {
                assert(c.contains('/'));
            }
        }
        assert(!c.drop_first().contains('/')) by {
            if c.drop_first().contains('/') {
                let k = choose|k: int| 0 <= k < c.drop_first().len() && c.drop_first()[k] == '/';
                assert(c[k + 1] == '/');
            }
        }
        lemma_split_from_plain(c.drop_first(), cur.push(c[0]));
        assert(cur.push(c[0]) + c.drop_first() =~= cur + c);
    }
}

proof fn lemma_split_from_slash_comp(x: Seq<char>, c: Seq<char>, cur: Seq<char>)
    requires
        c.len() > 0,
        !c.contains('/'),
    ensures
        split_from(x + seq!['/'] + c, cur) == split_from(x, cur) + seq![c],
    decreases x.len(),
{
    let s = x + seq!['/'] + c;
    if x.len() == 0 {
        assert(s =~= seq!['/'] + c);
        assert(s.drop_first() =~= c);
        lemma_split_from_plain(c, Seq::empty());
        assert(Seq::<char>::empty() + c =~= c);
    } else {
        assert(s[0] == x[0]);
        assert(s.drop_first() =~= x.drop_first() + seq!['/'] + c);
        if x[0] == '/' {
            lemma_split_from_slash_comp(x.drop_first(), c, Seq::empty());
        } else {
            lemma_split_from_slash_comp(x.drop_first(), c, cur.push(x[0]));
        }
        assert((if cur.len() > 0 { seq![cur] } else { Seq::<Seq<char>>::empty() }) + split_from(x.drop_first(), Seq::empty())
            + seq![c] =~= (if cur.len() > 0 { seq![cur] } else { Seq::<Seq<char>>::empty() }) + (split_from(
            x.drop_first(),
            Seq::empty(),
        ) + seq![c]));
    }
}

proof fn lemma_split_from_slash(x: Seq<char>, cur: Seq<char>)
    ensures
        split_from(x + seq!['/'], cur) == split_from(x, cur),
    decreases x.len(),
{
    let s = x + seq!['/'];
    if x.len() == 0 {
        assert(s =~= seq!['/']);
        assert(s.drop_first() =~= Seq::<char>::empty());
        assert(split_from(Seq::<char>::empty(), Seq::<char>::empty()) =~= Seq::<Seq<char>>::empty());
        assert(x =~= Seq::<char>::empty());
        assert((if cur.len() > 0 { seq![cur] } else { Seq::<Seq<char>>::empty() }) + Seq::<Seq<char>>::empty()
            =~= (if cur.len() > 0 { seq![cur] } else { Seq::<Seq<char>>::empty() }));
    } else {
        assert(s[0] == x[0]);
        assert(s.drop_first() =~= x.drop_first() + seq!['/']);
        if x[0] == '/' {
            lemma_split_from_slash(x.drop_first(), Seq::empty());
        } else {
            lemma_split_from_slash(x.drop_first(), cur.push(x[0]));
        }
    }
}

/// The parts `split_from` returns hold no slash and are not empty.
proof fn lemma_split_from_parts(s: Seq<char>, cur: Seq<char>)
    requires
        !cur.contains('/'),
    ensures
        forall|i: int| 0 <= i < split_from(s, cur).len() ==> #[trigger] split_from(s, cur)[i].len() > 0
            && !split_from(s, cur)[i].contains('/'),
    decreases s.len(),
{
    let r = split_from(s, cur);
    let head = if cur.len() > 0 { seq![cur] } else { Seq::<Seq<char>>::empty() };
    if s.len() == 0 {
        assert(r == head);
        assert forall|i: int| 0 <= i < r.len() implies #[trigger] r[i].len() > 0 && !r[i].contains('/') by {
            assert(r[i] == cur);
        }
    } else if s[0] == '/' {
        lemma_split_from_parts(s.drop_first(), Seq::empty());
        let tail = split_from(s.drop_first(), Seq::empty());
        assert(r == head + tail);
        assert forall|i: int| 0 <= i < r.len() implies #[trigger] r[i].len() > 0 && !r[i].contains('/') by {
            if i >= head.len() {
                assert(r[i] == tail[i - head.len()]);
            } else {
                assert(r[i] == cur);
            }
        }
    } else {
        assert(!cur.push(s[0]).contains('/')) by {
            if cur.push(s[0]).contains('/') {
                let k = choose|k: int| 0 <= k < cur.push(s[0]).len() && cur.push(s[0])[k] == '/';
                if k < cur.len() {
                    assert(cur[k] == '/');
                }
            }
        }
        lemma_split_from_parts(s.drop_first(), cur.push(s[0]));
        assert(r == split_from(s.drop_first(), cur.push(s[0])));
    }
}

/// Walking plain-free components from a stack of plain components leaves
/// only plain components.
proof fn lemma_walk_plain(stack: Seq<Seq<char>>, comps: Seq<Seq<char>>)
    requires
        forall|i: int| 0 <= i < stack.len() ==> plain_component(#[trigger] stack[i]),
        forall|i: int| 0 <= i < comps.len() ==> #[trigger] comps[i].len() > 0 && !comps[i].contains('/'),
    ensures
        forall|i: int| 0 <= i < walk(stack, comps).len() ==> plain_component(#[trigger] walk(stack, comps)[i]),
    decreases comps.len(),
{
    let w = walk(stack, comps);
    if comps.len() == 0 {
        assert(w == stack);
        assert forall|i: int| 0 <= i < w.len() implies plain_component(#[trigger] w[i]) by {
            assert(w[i] == stack[i]);
        }
    } else {
        let c = comps[0];
        let rest = comps.drop_first();
        assert forall|i: int| 0 <= i < rest.len() implies #[trigger] rest[i].len() > 0 && !rest[i].contains('/') by {
            assert(rest[i] == comps[i + 1]);
        }
        if c == seq!['.'] {
            assert(w == walk(stack, rest));
            lemma_walk_plain(stack, rest);
        } else if c == seq!['.', '.'] {
            let st = if stack.len() > 0 { stack.drop_last() } else { stack };
            assert(w == walk(st, rest));
            assert forall|i: int| 0 <= i < st.len() implies plain_component(#[trigger] st[i]) by {
                assert(st[i] == stack[i]);
            }
            lemma_walk_plain(st, rest);
        } else if stack.len() >= MAX_COMPONENTS {
            assert(w == stack);
            assert forall|i: int| 0 <= i < w.len() implies plain_component(#[trigger] w[i]) by {
                assert(w[i] == stack[i]);
            }
        } else {
            assert(c.len() > 0 && !c.contains('/'));
            assert(plain_component(c));
            let st = stack.push(c);
            assert(w == walk(st, rest));
            assert forall|i: int| 0 <= i < st.len() implies plain_component(#[trigger] st[i]) by {
                if i < stack.len() {
                    assert(st[i] == stack[i]);
                }
            }
            lemma_walk_plain(st, rest);
        }
    }
}

/// What `join_from` builds from a path whose components are the first `i`
/// of `comps` is a path starting with a slash whose components are the
/// first `k` of them, for some `k` from `i` on.
proof fn lemma_join_components(comps: Seq<Seq<char>>, i: int, acc: Seq<char>)
    requires
        0 <= i <= comps.len(),
        acc.len() > 0,
        acc[0] == '/',
        i == 0 ==> acc == seq!['/'],
        components(acc) == comps.take(i),
        forall|j: int| 0 <= j < comps.len() ==> plain_component(#[trigger] comps[j]),
    ensures
        join_from(comps, i, acc).len() > 0,
        join_from(comps, i, acc)[0] == '/',
        exists|k: int| i <= k <= comps.len() && components(join_from(comps, i, acc)) == comps.take(k),
    decreases comps.len() - i,
{
    let r = join_from(comps, i, acc);
    if i >= comps.len() {
        assert(r == acc);
        assert(components(r) == comps.take(i));
    } else {
        let with_slash = if i > 0 { acc.push('/') } else { acc };
        let c = comps[i];
        assert(plain_component(c));
        if i > 0 && str_bytes(acc) + 1 > MAX_PATH_LEN {
            assert(components(r) == comps.take(i));
        } else if str_bytes(with_slash) + str_bytes(c) > MAX_PATH_LEN {
            if i > 0 {
                lemma_split_from_slash(acc, Seq::empty());
                assert(acc.push('/') =~= acc + seq!['/']);
                assert(with_slash[0] == '/');
            }
            assert(components(r) == comps.take(i));
        } else {
            let next = with_slash + c;
            if i > 0 {
                assert(next =~= acc + seq!['/'] + c);
                lemma_split_from_slash_comp(acc, c, Seq::empty());
            } else {
                assert(next =~= Seq::<char>::empty() + seq!['/'] + c);
                lemma_split_from_slash_comp(Seq::empty(), c, Seq::empty());
                assert(split_from(Seq::<char>::empty(), Seq::<char>::empty()) =~= Seq::<Seq<char>>::empty());
            }
            assert(comps.take(i) + seq![c] =~= comps.take(i + 1));
            assert(next[0] == '/');
            lemma_join_components(comps, i + 1, next);
        }
    }
}

/// Path resolution yields an absolute path whose components are all plain
/// (no "." or "..", none empty), whenever the argument is absolute or the
/// working directory's own components are plain.
pub proof fn law_resolve_canonical(cwd: Seq<char>, arg: Seq<char>)
    requires
        (arg.len() > 0 && arg[0] == '/') || canonical_components(cwd),
    ensures
        resolve(cwd, arg).len() > 0,
        resolve(cwd, arg)[0] == '/',
        canonical_components(resolve(cwd, arg)),
{
    let start = if arg.len() > 0 && arg[0] == '/' {
        Seq::<Seq<char>>::empty()
    } else {
        let c = components(cwd);
        c.take(if c.len() < MAX_COMPONENTS { c.len() as int } else { MAX_COMPONENTS as int })
    };
    assert forall|i: int| 0 <= i < start.len() implies plain_component(#[trigger] start[i]) by {
        assert(start[i] == components(cwd)[i]);
    }
    lemma_split_from_parts(arg, Seq::empty());
    let stack = walk(start, components(arg));
    lemma_walk_plain(start, components(arg));
    assert(components(seq!['/']) =~= Seq::<Seq<char>>::empty()) by {
        assert(seq!['/'].drop_first() =~= Seq::<char>::empty());
        assert(split_from(Seq::<char>::empty(), Seq::<char>::empty()) =~= Seq::<Seq<char>>::empty());
        assert(split_from(seq!['/'], Seq::<char>::empty()) == Seq::<Seq<char>>::empty() + split_from(Seq::<char>::empty(), Seq::<char>::empty()));
    }
    assert(stack.take(0) =~= Seq::<Seq<char>>::empty());
    lemma_join_components(stack, 0, seq!['/']);
    let r = resolve(cwd, arg);
    let k = choose|k: int| 0 <= k <= stack.len() && components(r) == stack.take(k);
    assert forall|i: int| 0 <= i < components(r).len() implies plain_component(#[trigger] components(r)[i]) by {
        assert(components(r)[i] == stack[i]);
    }
}

/// The absolute path whose components are `comps`, separated by slashes.
pub open spec fn joined(comps: Seq<Seq<char>>) -> Seq<char>
    decreases comps.len(),
{
    if comps.len() == 0 {
        seq!['/']
    } else if comps.len() == 1 {
        seq!['/'] + comps[0]
    } else {
        joined(comps.drop_last()) + seq!['/'] + comps.last()
    }
}

proof fn lemma_joined_step(comps: Seq<Seq<char>>, i: int)
    requires
        0 <= i < comps.len(),
    ensures
        joined(comps.take(i + 1)) == (if i > 0 { joined(comps.take(i)).push('/') } else { seq!['/'] }) + comps[i],
{
    let t = comps.take(i + 1);
    assert(t.drop_last() =~= comps.take(i));
    assert(t.last() == comps[i]);
    if i > 0 {
        assert(joined(comps.take(i)).push('/') =~= joined(comps.take(i)) + seq!['/']);
    } else {
        assert(t.len() == 1 && t[0] == comps[i]);
    }
}

proof fn lemma_joined_shape(comps: Seq<Seq<char>>)
    requires
        forall|j: int| 0 <= j < comps.len() ==> plain_component(#[trigger] comps[j]),
    ensures
        joined(comps).len() > 0,
        joined(comps)[0] == '/',
        components(joined(comps)) == comps,
        str_bytes(joined(comps)) >= 1,
    decreases comps.len(),
{
    let r = joined(comps);
    if comps.len() == 0 {
        assert(seq!['/'].drop_first() =~= Seq::<char>::empty());
        assert(split_from(Seq::<char>::empty(), Seq::<char>::empty()) =~= Seq::<Seq<char>>::empty());
        assert(split_from(seq!['/'], Seq::<char>::empty()) == Seq::<Seq<char>>::empty() + split_from(Seq::<char>::empty(), Seq::<char>::empty()));
        assert(components(r) =~= comps);
        assert(seq!['/'].drop_last() =~= Seq::<char>::empty());
        lemma_str_bytes_nonneg(Seq::<char>::empty());
        assert(('/' as u32) < 0x80);
    } else if comps.len() == 1 {
        let c = comps[0];
        assert(plain_component(c));
        assert(r =~= Seq::<char>::empty() + seq!['/'] + c);
        lemma_split_from_slash_comp(Seq::empty(), c, Seq::empty());
        assert(split_from(Seq::<char>::empty(), Seq::<char>::empty()) =~= Seq::<Seq<char>>::empty());
        assert(components(r) =~= comps);
        lemma_str_bytes_append(seq!['/'], c);
        lemma_str_bytes_nonneg(c);
        assert(seq!['/'].drop_last() =~= Seq::<char>::empty());
        lemma_str_bytes_nonneg(Seq::<char>::empty());
        assert(('/' as u32) < 0x80);
    } else {
        let prev = comps.drop_last();
        let c = comps.last();
        assert(plain_component(c));
        assert forall|j: int| 0 <= j < prev.len() implies plain_component(#[trigger] prev[j]) by {
            assert(prev[j] == comps[j]);
        }
        lemma_joined_shape(prev);
        lemma_split_from_slash_comp(joined(prev), c, Seq::empty());
        assert(components(r) =~= comps);
        lemma_str_bytes_append(joined(prev) + seq!['/'], c);
        lemma_str_bytes_nonneg(c);
        lemma_str_bytes_append(joined(prev), seq!['/']);
        lemma_str_bytes_nonneg(seq!['/']);
    }
}

/// Paths of fewer components are no longer in bytes.
proof fn lemma_joined_prefix_bytes(comps: Seq<Seq<char>>, i: int)
    requires
        0 <= i <= comps.len(),
        forall|j: int| 0 <= j < comps.len() ==> plain_component(#[trigger] comps[j]),
    ensures
        str_bytes(joined(comps.take(i))) <= str_bytes(joined(comps)),
    decreases comps.len(),
{
    if i == comps.len() {
        assert(comps.take(i) =~= comps);
    } else {
        let prev = comps.drop_last();
        assert forall|j: int| 0 <= j < prev.len() implies plain_component(#[trigger] prev[j]) by {
            assert(prev[j] == comps[j]);
        }
        assert(prev.take(i) =~= comps.take(i));
        lemma_joined_prefix_bytes(prev, i);
        lemma_joined_step(comps, comps.len() - 1);
        assert(comps.take(comps.len() - 1) =~= prev);
        assert(comps.take(comps.len() as int) =~= comps);
        let c = comps.last();
        lemma_str_bytes_nonneg(c);
        if comps.len() > 1 {
            lemma_str_bytes_append(joined(prev).push('/'), c);
            assert(joined(prev).push('/') =~= joined(prev) + seq!['/']);
            lemma_str_bytes_append(joined(prev), seq!['/']);
            lemma_str_bytes_nonneg(seq!['/']);
        } else {
            assert(prev =~= Seq::<Seq<char>>::empty());
            lemma_str_bytes_append(seq!['/'], c);
        }
    }
}

/// Joining from a prefix path either stops with a trailing slash, or gives
/// the path of a longer prefix that fits in `MAX_PATH_LEN` bytes.
proof fn lemma_join_from_joined(comps: Seq<Seq<char>>, i: int)
    requires
        0 <= i <= comps.len(),
        str_bytes(joined(comps.take(i))) <= MAX_PATH_LEN,
        forall|j: int| 0 <= j < comps.len() ==> plain_component(#[trigger] comps[j]),
    ensures
        ({
            let r = join_from(comps, i, joined(comps.take(i)));
            (r.len() > 1 && r.last() == '/') || exists|k: int| i <= k <= comps.len() && r == joined(comps.take(k))
                && str_bytes(joined(comps.take(k))) <= MAX_PATH_LEN
        }),
    decreases comps.len() - i,
{
    let acc = joined(comps.take(i));
    let r = join_from(comps, i, acc);
    if i < comps.len() {
        let with_slash = if i > 0 { acc.push('/') } else { acc };
        let c = comps[i];
        assert(comps.take(0) =~= Seq::<Seq<char>>::empty());
        if i > 0 && str_bytes(acc) + 1 > MAX_PATH_LEN {
        } else if str_bytes(with_slash) + str_bytes(c) > MAX_PATH_LEN {
            if i > 0 {
                let t = comps.take(i);
                assert forall|j: int| 0 <= j < t.len() implies plain_component(#[trigger] t[j]) by {
                    assert(t[j] == comps[j]);
                }
                lemma_joined_shape(t);
                assert(r == acc.push('/'));
            }
        } else {
            lemma_joined_step(comps, i);
            lemma_str_bytes_append(with_slash, c);
            lemma_join_from_joined(comps, i + 1);
        }
    }
}

/// Joining the components of a path that fits gives that path.
proof fn lemma_join_from_exact(comps: Seq<Seq<char>>, i: int)
    requires
        0 <= i <= comps.len(),
        str_bytes(joined(comps)) <= MAX_PATH_LEN,
        forall|j: int| 0 <= j < comps.len() ==> plain_component(#[trigger] comps[j]),
    ensures
        join_from(comps, i, joined(comps.take(i))) == joined(comps),
    decreases comps.len() - i,
{
    if i == comps.len() {
        assert(comps.take(i) =~= comps);
    } else {
        let acc = joined(comps.take(i));
        let with_slash = if i > 0 { acc.push('/') } else { acc };
        let c = comps[i];
        assert(comps.take(0) =~= Seq::<Seq<char>>::empty());
        lemma_joined_step(comps, i);
        lemma_joined_prefix_bytes(comps, i + 1);
        lemma_str_bytes_append(with_slash, c);
        assert(plain_component(c));
        lemma_str_bytes_nonneg(c);
        if i > 0 {
            assert(acc.push('/') =~= acc + seq!['/']);
            lemma_str_bytes_append(acc, seq!['/']);
            assert(seq!['/'].drop_last() =~= Seq::<char>::empty());
            lemma_str_bytes_nonneg(Seq::<char>::empty());
            assert(('/' as u32) < 0x80);
        }
        lemma_join_from_exact(comps, i + 1);
    }
}

/// Walking plain components that all fit in the stack pushes them all.
proof fn lemma_walk_pushes(stack: Seq<Seq<char>>, comps: Seq<Seq<char>>)
    requires
        stack.len() + comps.len() <= MAX_COMPONENTS,
        forall|j: int| 0 <= j < comps.len() ==> plain_component(#[trigger] comps[j]),
    ensures
        walk(stack, comps) == stack + comps,
    decreases comps.len(),
{
    if comps.len() == 0 {
        assert(stack + comps =~= stack);
    } else {
        let c = comps[0];
        assert(plain_component(c));
        let rest = comps.drop_first();
        assert forall|j: int| 0 <= j < rest.len() implies plain_component(#[trigger] rest[j]) by {
            assert(rest[j] == comps[j + 1]);
        }
        lemma_walk_pushes(stack.push(c), rest);
        assert(stack.push(c) + rest =~= stack + comps);
    }
}

/// A walk from a stack within the depth limit stays within it.
proof fn lemma_walk_depth(stack: Seq<Seq<char>>, comps: Seq<Seq<char>>)
    requires
        stack.len() <= MAX_COMPONENTS,
    ensures
        walk(stack, comps).len() <= MAX_COMPONENTS,
    decreases comps.len(),
{
    if comps.len() > 0 {
        let c = comps[0];
        let rest = comps.drop_first();
        if c == seq!['.'] {
            lemma_walk_depth(stack, rest);
        } else if c == seq!['.', '.'] {
            lemma_walk_depth(if stack.len() > 0 { stack.drop_last() } else { stack }, rest);
        } else if stack.len() < MAX_COMPONENTS {
            lemma_walk_depth(stack.push(c), rest);
        }
    }
}

/// Resolving a resolved path again gives it back, from any working
/// directory, unless the first resolution was cut short at the path length
/// limit right after a slash (the result then ends with a slash, which the
/// second resolution drops).
pub proof fn law_resolve_idempotent(cwd: Seq<char>, arg: Seq<char>, cwd2: Seq<char>)
    requires
        (arg.len() > 0 && arg[0] == '/') || canonical_components(cwd),
        resolve(cwd, arg) == seq!['/'] || resolve(cwd, arg).last() != '/',
    ensures
        resolve(cwd2, resolve(cwd, arg)) == resolve(cwd, arg),
{
    let start = if arg.len() > 0 && arg[0] == '/' {
        Seq::<Seq<char>>::empty()
    } else {
        let c = components(cwd);
        c.take(if c.len() < MAX_COMPONENTS { c.len() as int } else { MAX_COMPONENTS as int })
    };
    assert forall|i: int| 0 <= i < start.len() implies plain_component(#[trigger] start[i]) by {
        assert(start[i] == components(cwd)[i]);
    }
    lemma_split_from_parts(arg, Seq::empty());
    let stack = walk(start, components(arg));
    lemma_walk_plain(start, components(arg));
    lemma_walk_depth(start, components(arg));
    let r = resolve(cwd, arg);
    assert(stack.take(0) =~= Seq::<Seq<char>>::empty());
    lemma_str_bytes_nonneg(Seq::<char>::empty());
    assert(seq!['/'].drop_last() =~= Seq::<char>::empty());
    assert(('/' as u32) < 0x80);
    lemma_join_from_joined(stack, 0);
    if r.len() > 1 && r.last() == '/' {
        assert(r != seq!['/']);
    }
    let k = choose|k: int| 0 <= k <= stack.len() && r == joined(stack.take(k))
        && str_bytes(joined(stack.take(k))) <= MAX_PATH_LEN;
    let p = stack.take(k);
    assert forall|j: int| 0 <= j < p.len() implies plain_component(#[trigger] p[j]) by {
        assert(p[j] == stack[j]);
    }
    lemma_joined_shape(p);
    lemma_walk_pushes(Seq::empty(), p);
    assert(Seq::<Seq<char>>::empty() + p =~= p);
    assert(p.take(0) =~= Seq::<Seq<char>>::empty());
    lemma_join_from_exact(p, 0);
}

/// Reads command line `line` given working directory `cwd`: the line is
/// trimmed; a known command word is that command; a known word followed by
/// a space takes the rest as its argument (paths are resolved); anything
/// else names a program to run.
pub fn parse_command(line: &[char], cwd: &[char]) -> (r: Command)
    ensures
        r@ == parse_spec(line@, cwd@),
{
    let c = trim_chars(line);
    let c = c.as_slice();
    if chars_eq(c, "help") {
        Command::Help
    } else if chars_eq(c, "version") {
        Command::Version
    } else if chars_eq(c, "memory") {
        Command::Memory
    } else if chars_eq(c, "heap") {
        Command::Heap
    } else if chars_eq(c, "heap-reset") {
        Command::HeapReset
    } else if chars_eq(c, "mmap") {
        Command::Mmap
    } else if chars_eq(c, "devices") {
        Command::Devices
    } else if chars_eq(c, "graphics") {
        Command::Graphics
    } else if chars_eq(c, "gfxtest") {
        Command::GraphicsTest
    } else if chars_eq(c, "syscall") {
        Command::Syscall
    } else if chars_eq(c, "fscheck") {
        Command::Fscheck
    } else if chars_eq(c, "config") {
        Command::Config
    } else if chars_eq(c, "ls") {
        Command::Ls(None)
    } else if chars_eq(c, "cat") {
        Command::Usage(UsageOf::Cat)
    } else if chars_eq(c, "echo") {
        Command::Echo(Vec::new())
    } else if chars_eq(c, "pwd") {
        Command::Pwd
    } else if chars_eq(c, "touch") {
        Command::Usage(UsageOf::Touch)
    } else if chars_eq(c, "mkdir") {
        Command::Usage(UsageOf::Mkdir)
    } else if chars_eq(c, "rm") {
        Command::Usage(UsageOf::Rm)
    } else if chars_eq(c, "rmdir") {
        Command::Usage(UsageOf::Rmdir)
    } else if chars_eq(c, "cd") {
        let mut root: Vec<char> = Vec::new();
        root.push('/');
        assert(root@ =~= seq!['/']);
        Command::Cd(root)
    } else if chars_eq(c, "shutdown") {
        Command::Shutdown
    } else if chars_eq(c, "reboot") {
        Command::Reboot
    } else if chars_start_with(c, "ls ") {
        proof { reveal_strlit("ls "); }
        Command::Ls(Some(trimmed_rest(c, 3)))
    } else if chars_start_with(c, "cat ") {
        proof { reveal_strlit("cat "); }
        let a = trimmed_rest(c, 4);
        if a.len() == 0 { Command::Usage(UsageOf::Cat) } else { Command::Cat(resolve_path(cwd, a.as_slice())) }
    } else if chars_start_with(c, "echo ") {
        proof { reveal_strlit("echo "); }
        let m = copy_range(c, 5, c.len());
        assert(m@ =~= c@.skip(5));
        Command::Echo(m)
    } else if chars_start_with(c, "touch ") {
        proof { reveal_strlit("touch "); }
        let a = trimmed_rest(c, 6);
        if a.len() == 0 { Command::Usage(UsageOf::Touch) } else { Command::Touch(resolve_path(cwd, a.as_slice())) }
    } else if chars_start_with(c, "mkdir ") {
        proof { reveal_strlit("mkdir "); }
        let a = trimmed_rest(c, 6);
        if a.len() == 0 { Command::Usage(UsageOf::Mkdir) } else { Command::Mkdir(resolve_path(cwd, a.as_slice())) }
    } else if chars_start_with(c, "rm ") {
        proof { reveal_strlit("rm "); }
        let a = trimmed_rest(c, 3);
        if a.len() == 0 { Command::Usage(UsageOf::Rm) } else { Command::Rm(resolve_path(cwd, a.as_slice())) }
    } else if chars_start_with(c, "rmdir ") {
        proof { reveal_strlit("rmdir "); }
        let a = trimmed_rest(c, 6);
        if a.len() == 0 { Command::Usage(UsageOf::Rmdir) } else { Command::Rmdir(resolve_path(cwd, a.as_slice())) }
    } else if chars_start_with(c, "cd ") {
        proof { reveal_strlit("cd "); }
        Command::Cd(trimmed_rest(c, 3))
    } else if c.len() == 0 {
        Command::Empty
    } else {
        Command::Run(resolve_path(cwd, c))
    }
}

/// The shell's working directory.
pub struct WorkingDirectory {
    path: Vec<char>,
}

impl WorkingDirectory {
    pub closed spec fn view(&self) -> Seq<char> {
        self.path@
    }

    /// The root directory.
    pub fn new() -> (w: Self)
        ensures
            w@ == seq!['/'],
            canonical_components(w@),
    {
        let mut path: Vec<char> = Vec::new();
        path.push('/');
        assert(path@ =~= seq!['/']);
        assert(components(seq!['/']) =~= Seq::<Seq<char>>::empty()) by {
            assert(seq!['/'].drop_first() =~= Seq::<char>::empty());
            assert(split_from(Seq::<char>::empty(), Seq::<char>::empty()) =~= Seq::<Seq<char>>::empty());
            assert(split_from(seq!['/'], Seq::<char>::empty()) == Seq::<Seq<char>>::empty() + split_from(
                Seq::<char>::empty(),
                Seq::<char>::empty(),
            ));
        }
        WorkingDirectory { path }
    }

    pub fn path(&self) -> (p: &[char])
        ensures
            p@ == self@,
    {
        self.path.as_slice()
    }

    /// Changes to the directory `arg` names from here; from a directory
    /// whose components are plain, the new one is absolute with plain
    /// components too.
    pub fn cd(&mut self, arg: &[char])
        ensures
            final(self)@ == resolve(old(self)@, arg@),
            canonical_components(old(self)@) ==> final(self)@.len() > 0 && final(self)@[0] == '/'
                && canonical_components(final(self)@),
    {
        proof {
            if canonical_components(self@) {
                law_resolve_canonical(self@, arg@);
            }
        }
        self.path = resolve_path(self.path.as_slice(), arg);
    }
}

/// The characters of `s`, in order.
pub fn str_chars(s: &str) -> (r: Vec<char>)
    ensures
        r@ == s@,
{
    let n = s.unicode_len();
    let mut r: Vec<char> = Vec::new();
    let mut i: usize = 0;
    while i < n
        invariant
            n == s@.len(),
            i <= n,
            r@ == s@.subrange(0, i as int),
        decreases n - i,
    {
        r.push(s.get_char(i));
        i = i + 1;
        assert(r@ =~= s@.subrange(0, i as int));
    }
    assert(r@ =~= s@);
    r
}

/// Reads the command line `command` typed in working directory `cwd` into
/// the command it asks for (see `parse_command`); running it is the
/// caller's part.
pub fn process_command(command: &str, cwd: &WorkingDirectory) -> (r: Command)
    ensures
        r@ == parse_spec(command@, cwd@),
{
    let line = str_chars(command);
    parse_command(line.as_slice(), cwd.path())
}

/// The command words offered for help and completion, in order.
pub open spec fn available_commands() -> Seq<Seq<char>> {
    seq![
        "help"@, "version"@, "memory"@, "heap"@, "mmap"@, "devices"@, "syscall"@, "fscheck"@, "config"@,
        "ls"@, "cat"@, "echo"@, "pwd"@, "touch"@, "mkdir"@, "rm"@, "rmdir"@, "cd"@, "shutdown"@, "reboot"@,
    ]
}

/// The command words offered for help and completion.
pub fn get_available_commands() -> (r: Vec<&'static str>)
    ensures
        r@.map_values(|w: &'static str| w@) == available_commands(),
{
    let mut v: Vec<&'static str> = Vec::new();
    v.push("help");
    v.push("version");
    v.push("memory");
    v.push("heap");
    v.push("mmap");
    v.push("devices");
    v.push("syscall");
    v.push("fscheck");
    v.push("config");
    v.push("ls");
    v.push("cat");
    v.push("echo");
    v.push("pwd");
    v.push("touch");
    v.push("mkdir");
    v.push("rm");
    v.push("rmdir");
    v.push("cd");
    v.push("shutdown");
    v.push("reboot");
    assert(v@.map_values(|w: &'static str| w@) =~= available_commands());
    v
}


/// Every word of the available command list, typed alone, is a built-in
/// command: it is never taken as a program to run, nor as an empty line.
pub proof fn law_command_words_are_built_in(i: int, cwd: Seq<char>)
    requires
        0 <= i < available_commands().len(),
    ensures
        !(parse_spec(available_commands()[i], cwd) is Run),
        !(parse_spec(available_commands()[i], cwd) is Empty),
{
    reveal_strlit("help");
    reveal_strlit("version");
    reveal_strlit("memory");
    reveal_strlit("heap");
    reveal_strlit("heap-reset");
    reveal_strlit("mmap");
    reveal_strlit("devices");
    reveal_strlit("graphics");
    reveal_strlit("gfxtest");
    reveal_strlit("syscall");
    reveal_strlit("fscheck");
    reveal_strlit("config");
    reveal_strlit("ls");
    reveal_strlit("cat");
    reveal_strlit("echo");
    reveal_strlit("pwd");
    reveal_strlit("touch");
    reveal_strlit("mkdir");
    reveal_strlit("rm");
    reveal_strlit("rmdir");
    reveal_strlit("cd");
    reveal_strlit("shutdown");
    reveal_strlit("reboot");
    let w = available_commands()[i];
    assert(w.len() > 0);
    assert(!is_ws(w[0]) && !is_ws(w.last()));
    assert(trim_start(w) == w);
    assert(trim_end(w) == w);
    assert(trim(w) == w);
}


/// What each word of the available command list means typed alone: the
/// built-in of that name; the commands that need an argument show their
/// usage, `ls` lists the working directory, `echo` prints an empty line and
/// `cd` goes to the root.
pub proof fn law_command_words_meaning(cwd: Seq<char>)
    ensures
        parse_spec(available_commands()[0], cwd) is Help,
        parse_spec(available_commands()[1], cwd) is Version,
        parse_spec(available_commands()[2], cwd) is Memory,
        parse_spec(available_commands()[3], cwd) is Heap,
        parse_spec(available_commands()[4], cwd) is Mmap,
        parse_spec(available_commands()[5], cwd) is Devices,
        parse_spec(available_commands()[6], cwd) is Syscall,
        parse_spec(available_commands()[7], cwd) is Fscheck,
        parse_spec(available_commands()[8], cwd) is Config,
        parse_spec(available_commands()[9], cwd) == CommandView::Ls(None),
        parse_spec(available_commands()[10], cwd) == CommandView::Usage(UsageOf::Cat),
        parse_spec(available_commands()[11], cwd) == CommandView::Echo(Seq::empty()),
        parse_spec(available_commands()[12], cwd) is Pwd,
        parse_spec(available_commands()[13], cwd) == CommandView::Usage(UsageOf::Touch),
        parse_spec(available_commands()[14], cwd) == CommandView::Usage(UsageOf::Mkdir),
        parse_spec(available_commands()[15], cwd) == CommandView::Usage(UsageOf::Rm),
        parse_spec(available_commands()[16], cwd) == CommandView::Usage(UsageOf::Rmdir),
        parse_spec(available_commands()[17], cwd) == CommandView::Cd(seq!['/']),
        parse_spec(available_commands()[18], cwd) is Shutdown,
        parse_spec(available_commands()[19], cwd) is Reboot,
{
    assert forall|i: int| 0 <= i < available_commands().len() implies trim(#[trigger] available_commands()[i])
        == available_commands()[i] by {
        law_command_words_are_built_in(i, cwd);
        reveal_strlit("help");
        reveal_strlit("version");
        reveal_strlit("memory");
        reveal_strlit("heap");
        reveal_strlit("mmap");
        reveal_strlit("devices");
        reveal_strlit("syscall");
        reveal_strlit("fscheck");
        reveal_strlit("config");
        reveal_strlit("ls");
        reveal_strlit("cat");
        reveal_strlit("echo");
        reveal_strlit("pwd");
        reveal_strlit("touch");
        reveal_strlit("mkdir");
        reveal_strlit("rm");
        reveal_strlit("rmdir");
        reveal_strlit("cd");
        reveal_strlit("shutdown");
        reveal_strlit("reboot");
        let w = available_commands()[i];
        assert(!is_ws(w[0]) && !is_ws(w.last()));
        assert(trim_start(w) == w);
        assert(trim_end(w) == w);
    }
    reveal_strlit("help");
    reveal_strlit("version");
    reveal_strlit("memory");
    reveal_strlit("heap");
    reveal_strlit("heap-reset");
    reveal_strlit("mmap");
    reveal_strlit("devices");
    reveal_strlit("graphics");
    reveal_strlit("gfxtest");
    reveal_strlit("syscall");
    reveal_strlit("fscheck");
    reveal_strlit("config");
    reveal_strlit("ls");
    reveal_strlit("cat");
    reveal_strlit("echo");
    reveal_strlit("pwd");
    reveal_strlit("touch");
    reveal_strlit("mkdir");
    reveal_strlit("rm");
    reveal_strlit("rmdir");
    reveal_strlit("cd");
    reveal_strlit("shutdown");
    reveal_strlit("reboot");
    assert(trim(available_commands()[0]) == available_commands()[0]);
    assert(trim(available_commands()[1]) == available_commands()[1]);
    assert(trim(available_commands()[2]) == available_commands()[2]);
    assert(trim(available_commands()[3]) == available_commands()[3]);
    assert(trim(available_commands()[4]) == available_commands()[4]);
    assert(trim(available_commands()[5]) == available_commands()[5]);
    assert(trim(available_commands()[6]) == available_commands()[6]);
    assert(trim(available_commands()[7]) == available_commands()[7]);
    assert(trim(available_commands()[8]) == available_commands()[8]);
    assert(trim(available_commands()[9]) == available_commands()[9]);
    assert(trim(available_commands()[10]) == available_commands()[10]);
    assert(trim(available_commands()[11]) == available_commands()[11]);
    assert(trim(available_commands()[12]) == available_commands()[12]);
    assert(trim(available_commands()[13]) == available_commands()[13]);
    assert(trim(available_commands()[14]) == available_commands()[14]);
    assert(trim(available_commands()[15]) == available_commands()[15]);
    assert(trim(available_commands()[16]) == available_commands()[16]);
    assert(trim(available_commands()[17]) == available_commands()[17]);
    assert(trim(available_commands()[18]) == available_commands()[18]);
    assert(trim(available_commands()[19]) == available_commands()[19]);
    assert(available_commands()[3] != "help"@) by {
        assert(available_commands()[3][2] != "help"@[2]);
    }
}

} // verus!
