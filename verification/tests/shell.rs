use elinos::shell::{
    classify_command, split_words, CommandHistory, EditEffect, HistoryEditor, KernelShellInterface, KeyEffect,
    LineEditor, ShellAction, ShellConfig, MAX_HISTORY_ENTRIES,
};

fn chars(s: &str) -> Vec<char> {
    s.chars().collect()
}

fn text(v: &[char]) -> String {
    v.iter().collect()
}

#[test]
fn default_config() {
    let c = ShellConfig::default();
    assert_eq!(c.prompt, "elinOS> ");
    assert_eq!(c.max_command_len, 1024);
}

#[test]
fn words_split_on_white_space() {
    let w = split_words(&chars("  ls   -l\tdir  "));
    let w: Vec<String> = w.iter().map(|x| text(x)).collect();
    assert_eq!(w, vec!["ls", "-l", "dir"]);
    assert!(split_words(&chars("   ")).is_empty());
}

#[test]
fn built_in_commands() {
    assert!(matches!(classify_command(&chars("")), ShellAction::Empty));
    assert!(matches!(classify_command(&chars("help")), ShellAction::Help));
    assert!(matches!(classify_command(&chars(" history ")), ShellAction::History));
    assert!(matches!(classify_command(&chars("exit")), ShellAction::Exit));
    assert!(matches!(classify_command(&chars("quit now")), ShellAction::Exit));
    assert!(matches!(classify_command(&chars("shutdown")), ShellAction::Shutdown));
    assert!(matches!(classify_command(&chars("reboot")), ShellAction::Reboot));
}

#[test]
fn other_commands_go_to_the_kernel() {
    match classify_command(&chars("cat  /a.txt  b")) {
        ShellAction::System(c, args) => {
            assert_eq!(text(&c), "cat");
            let args: Vec<String> = args.iter().map(|x| text(x)).collect();
            assert_eq!(args, vec!["/a.txt", "b"]);
        }
        other => panic!("unexpected {:?}", other),
    }
}

#[test]
fn kernel_command_line_is_joined_with_spaces() {
    let k = KernelShellInterface::new();
    let line = k.system_command_line(&chars("cat"), &[chars("/a.txt"), chars("b")]).unwrap();
    assert_eq!(text(&line), "cat /a.txt b");
    let line = k.system_command_line(&chars("ls"), &[]).unwrap();
    assert_eq!(text(&line), "ls");
}

#[test]
fn kernel_command_line_too_long() {
    let k = KernelShellInterface::new();
    let big = chars(&"x".repeat(1020));
    assert_eq!(k.system_command_line(&chars("echo"), &[big.clone()]), Err("Command too long"));
    let fits = chars(&"x".repeat(1019));
    assert_eq!(k.system_command_line(&chars("echo"), &[fits]).unwrap().len(), 1024);
    assert_eq!(k.system_command_line(&big, &[]).unwrap().len(), 1020);
}

#[test]
fn line_editing() {
    let mut e = LineEditor::new(1024);
    assert_eq!(e.key(b'l'), KeyEffect::Echo(b'l'));
    assert_eq!(e.key(b's'), KeyEffect::Echo(b's'));
    assert_eq!(e.key(0x1b), KeyEffect::Ignore);
    assert_eq!(e.key(0x7f), KeyEffect::Erase);
    assert_eq!(e.line(), b"l");
    assert_eq!(e.key(8), KeyEffect::Erase);
    assert_eq!(e.key(8), KeyEffect::Ignore);
    assert_eq!(e.key(b'\r'), KeyEffect::Submit);
    assert_eq!(e.line(), b"");
}

#[test]
fn line_editing_stops_at_the_limit() {
    let mut e = LineEditor::new(4);
    assert_eq!(e.key(b'a'), KeyEffect::Echo(b'a'));
    assert_eq!(e.key(b'b'), KeyEffect::Echo(b'b'));
    assert_eq!(e.key(b'c'), KeyEffect::Echo(b'c'));
    assert_eq!(e.key(b'd'), KeyEffect::Ignore);
    assert_eq!(e.line(), b"abc");
    e.clear();
    assert_eq!(e.line(), b"");
}

#[test]
fn history_skips_repeats_and_itself() {
    let mut h = CommandHistory::new();
    assert!(h.add(&chars("ls")));
    assert!(!h.add(&chars("ls")));
    assert!(!h.add(&chars("history")));
    assert!(!h.add(&chars("  history ")));
    assert!(h.add(&chars("pwd")));
    assert!(h.add(&chars("ls")));
    assert_eq!(h.len(), 3);
    assert_eq!(text(h.get(0)), "ls");
    assert_eq!(text(h.get(2)), "ls");
}

#[test]
fn history_drops_the_oldest_when_full() {
    let mut h = CommandHistory::new();
    for i in 0..(MAX_HISTORY_ENTRIES + 5) {
        assert!(h.add(&chars(&format!("cmd{}", i))));
    }
    assert_eq!(h.len(), MAX_HISTORY_ENTRIES);
    assert_eq!(text(h.get(0)), "cmd5");
    assert_eq!(text(h.get(MAX_HISTORY_ENTRIES - 1)), "cmd104");
}

#[test]
fn history_refuses_overlong_commands() {
    let mut h = CommandHistory::new();
    assert!(!h.add(&chars(&"y".repeat(1025))));
    assert!(h.add(&chars(&"y".repeat(1024))));
}

#[test]
fn history_file_round_trip() {
    let mut h = CommandHistory::new();
    h.add(&chars("ls /"));
    h.add(&chars("cat a.txt"));
    let content = h.file_content().unwrap();
    assert_eq!(text(&content), "ls /\ncat a.txt\n");
    let back = CommandHistory::load(&content);
    assert_eq!(back.len(), 2);
    assert_eq!(text(back.get(0)), "ls /");
    assert_eq!(text(back.get(1)), "cat a.txt");
}

#[test]
fn history_file_loading_trims_and_skips_blank_lines() {
    let h = CommandHistory::load(&chars("  ls  \r\n\n   \npwd"));
    assert_eq!(h.len(), 2);
    assert_eq!(text(h.get(0)), "ls");
    assert_eq!(text(h.get(1)), "pwd");
}

#[test]
fn history_file_too_large() {
    let mut h = CommandHistory::new();
    for i in 0..5 {
        h.add(&chars(&format!("{}{}", i, "z".repeat(1000))));
    }
    assert_eq!(h.file_content(), Err("History content too large"));
}

fn type_keys(e: &mut HistoryEditor, keys: &[u8], history: &[Vec<u8>]) -> Vec<EditEffect> {
    keys.iter().map(|k| e.key(*k, history)).collect()
}

#[test]
fn history_browsing_with_arrow_keys() {
    let history = vec![b"ls".to_vec(), b"pwd".to_vec()];
    let mut e = HistoryEditor::new();
    type_keys(&mut e, b"ca", &history);
    // Up: the newest entry replaces the two characters typed.
    let fx = type_keys(&mut e, b"\x1b[A", &history);
    assert_eq!(fx[2], EditEffect::Replace(2));
    assert_eq!(e.line(), b"pwd");
    assert_eq!(e.history_index(), Some(1));
    type_keys(&mut e, b"\x1b[A", &history);
    assert_eq!(e.line(), b"ls");
    // At the oldest entry, up changes nothing.
    let fx = type_keys(&mut e, b"\x1b[A", &history);
    assert_eq!(fx[2], EditEffect::Ignore);
    assert_eq!(e.line(), b"ls");
    // Down twice: the next entry, then the line that was being typed.
    type_keys(&mut e, b"\x1b[B", &history);
    assert_eq!(e.line(), b"pwd");
    type_keys(&mut e, b"\x1b[B", &history);
    assert_eq!(e.line(), b"ca");
    assert_eq!(e.history_index(), None);
}

#[test]
fn typing_leaves_the_history() {
    let history = vec![b"ls".to_vec()];
    let mut e = HistoryEditor::new();
    type_keys(&mut e, b"\x1b[A", &history);
    assert_eq!(e.key(b'x', &history), EditEffect::Echo(b'x'));
    assert_eq!(e.line(), b"lsx");
    assert_eq!(e.history_index(), None);
    // Other escape sequences and control bytes are dropped.
    let fx = type_keys(&mut e, b"\x1b[C\x01", &history);
    assert!(fx.iter().all(|f| *f == EditEffect::Ignore));
    assert_eq!(e.line(), b"lsx");
    assert_eq!(e.key(b'\n', &history), EditEffect::Submit);
}

#[test]
fn no_history_to_browse() {
    let mut e = HistoryEditor::new();
    let fx = type_keys(&mut e, b"a\x1b[A\x1b[B", &[]);
    assert!(fx[1..].iter().all(|f| *f == EditEffect::Ignore));
    assert_eq!(e.line(), b"a");
}
