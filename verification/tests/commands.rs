use elinos::commands::{get_available_commands, parse_command, process_command, resolve_path, Command, UsageOf, WorkingDirectory};

fn chars(s: &str) -> Vec<char> {
    s.chars().collect()
}

fn text(v: &[char]) -> String {
    v.iter().collect()
}

fn parse(line: &str, cwd: &str) -> Command {
    parse_command(&chars(line), &chars(cwd))
}

#[test]
fn plain_command_words() {
    assert!(matches!(parse("help", "/"), Command::Help));
    assert!(matches!(parse("  version  ", "/"), Command::Version));
    assert!(matches!(parse("heap-reset", "/"), Command::HeapReset));
    assert!(matches!(parse("gfxtest", "/"), Command::GraphicsTest));
    assert!(matches!(parse("ls", "/"), Command::Ls(None)));
    assert!(matches!(parse("pwd", "/"), Command::Pwd));
    assert!(matches!(parse("", "/"), Command::Empty));
    assert!(matches!(parse("   ", "/"), Command::Empty));
}

#[test]
fn commands_without_their_argument_ask_for_usage() {
    assert!(matches!(parse("cat", "/"), Command::Usage(UsageOf::Cat)));
    assert!(matches!(parse("touch", "/"), Command::Usage(UsageOf::Touch)));
    assert!(matches!(parse("rmdir", "/"), Command::Usage(UsageOf::Rmdir)));
    match parse("cd", "/home") {
        Command::Cd(p) => assert_eq!(text(&p), "/"),
        other => panic!("unexpected {:?}", other),
    }
}

#[test]
fn arguments_are_resolved_against_the_working_directory() {
    match parse("cat notes.txt", "/home/user") {
        Command::Cat(p) => assert_eq!(text(&p), "/home/user/notes.txt"),
        other => panic!("unexpected {:?}", other),
    }
    match parse("mkdir ../tmp", "/home/user") {
        Command::Mkdir(p) => assert_eq!(text(&p), "/home/tmp"),
        other => panic!("unexpected {:?}", other),
    }
    match parse("rm /abs/file", "/home") {
        Command::Rm(p) => assert_eq!(text(&p), "/abs/file"),
        other => panic!("unexpected {:?}", other),
    }
    match parse("ls docs", "/") {
        Command::Ls(Some(p)) => assert_eq!(text(&p), "docs"),
        other => panic!("unexpected {:?}", other),
    }
}

#[test]
fn echo_keeps_its_message() {
    match parse("echo hello  world", "/") {
        Command::Echo(m) => assert_eq!(text(&m), "hello  world"),
        other => panic!("unexpected {:?}", other),
    }
    match parse("echo", "/") {
        Command::Echo(m) => assert!(m.is_empty()),
        other => panic!("unexpected {:?}", other),
    }
}

#[test]
fn other_words_name_a_program() {
    match parse("hello_simple", "/programs") {
        Command::Run(p) => assert_eq!(text(&p), "/programs/hello_simple"),
        other => panic!("unexpected {:?}", other),
    }
    match parse("./hello", "/bin") {
        Command::Run(p) => assert_eq!(text(&p), "/bin/hello"),
        other => panic!("unexpected {:?}", other),
    }
}

#[test]
fn resolve_handles_dots() {
    assert_eq!(text(&resolve_path(&chars("/a/b"), &chars("."))), "/a/b");
    assert_eq!(text(&resolve_path(&chars("/a/b"), &chars(".."))), "/a");
    assert_eq!(text(&resolve_path(&chars("/a/b"), &chars("../../.."))), "/");
    assert_eq!(text(&resolve_path(&chars("/"), &chars("x//y/./z/"))), "/x/y/z");
    assert_eq!(text(&resolve_path(&chars("/a"), &chars("/"))), "/");
}

#[test]
fn resolve_keeps_at_most_32_components() {
    let deep: String = (0..40).map(|i| format!("/d{}", i)).collect();
    let r = text(&resolve_path(&chars("/"), &chars(&deep)));
    assert_eq!(r.matches('/').count(), 32);
    assert!(r.ends_with("/d31"));
}

#[test]
fn resolve_keeps_at_most_256_bytes() {
    let long = format!("/{}/{}", "a".repeat(200), "b".repeat(100));
    let r = text(&resolve_path(&chars("/"), &chars(&long)));
    assert_eq!(r, format!("/{}/", "a".repeat(200)));
}

#[test]
fn working_directory_changes() {
    let mut cwd = WorkingDirectory::new();
    assert_eq!(text(cwd.path()), "/");
    cwd.cd(&chars("usr/lib"));
    assert_eq!(text(cwd.path()), "/usr/lib");
    cwd.cd(&chars(".."));
    assert_eq!(text(cwd.path()), "/usr");
    cwd.cd(&chars("/etc/./x/.."));
    assert_eq!(text(cwd.path()), "/etc");
}

#[test]
fn process_command_reads_a_str_line() {
    let mut cwd = WorkingDirectory::new();
    cwd.cd(&chars("home"));
    match process_command("touch new.txt", &cwd) {
        Command::Touch(p) => assert_eq!(text(&p), "/home/new.txt"),
        other => panic!("unexpected {:?}", other),
    }
    assert!(matches!(process_command("shutdown", &cwd), Command::Shutdown));
}

#[test]
fn available_commands_are_listed_in_order() {
    let v = get_available_commands();
    assert_eq!(v.len(), 20);
    assert_eq!(v[0], "help");
    assert_eq!(v[8], "config");
    assert_eq!(v[19], "reboot");
}

#[test]
fn resolving_twice_gives_the_same_path() {
    let chars = |s: &str| s.chars().collect::<Vec<char>>();
    let once = resolve_path(&chars("/home/user"), &chars("../docs/./notes/../x"));
    assert_eq!(once.iter().collect::<String>(), "/home/docs/x");
    let twice = resolve_path(&chars("/elsewhere"), &once);
    assert_eq!(twice, once);
    // Cut short at the length limit after a slash, the path keeps that
    // slash, and resolving it again drops it.
    let long = format!("/x/{}", "y".repeat(300));
    let cut = resolve_path(&chars("/"), &chars(&long));
    assert_eq!(cut.iter().collect::<String>(), "/x/");
    let again = resolve_path(&chars("/"), &cut);
    assert_eq!(again.iter().collect::<String>(), "/x");
}
