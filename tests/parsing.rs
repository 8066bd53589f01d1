use yarp::command::{classify, prompt_for, read_command, Command, LineError};
use yarp::parser::{parse_line, parse_statement, Statement};
use yarp::text::{split_on, split_words, trim_text};

fn words_of(st: &Statement) -> Vec<Vec<String>> {
    let mut out = Vec::new();
    for stage in &st.stages {
        let mut w = vec![stage.program.clone()];
        w.extend(stage.args.iter().cloned());
        out.push(w);
    }
    out
}

fn strings(v: &[&str]) -> Vec<String> {
    v.iter().map(|s| s.to_string()).collect()
}

#[test]
fn split_keeps_empty_pieces() {
    assert_eq!(split_on("a;;b;", ';'), strings(&["a", "", "b", ""]));
    assert_eq!(split_on("", ';'), strings(&[""]));
    assert_eq!(split_on("abc", '|'), strings(&["abc"]));
}

#[test]
fn trim_removes_surrounding_whitespace() {
    assert_eq!(trim_text("  ls -l \t\n"), "ls -l");
    assert_eq!(trim_text("   "), "");
    assert_eq!(trim_text(""), "");
    assert_eq!(trim_text("a b"), "a b");
}

#[test]
fn words_split_on_runs_of_whitespace() {
    assert_eq!(split_words("  ls   -l\t/tmp  "), strings(&["ls", "-l", "/tmp"]));
    assert_eq!(split_words(""), Vec::<String>::new());
    assert_eq!(split_words(" \t "), Vec::<String>::new());
    assert_eq!(split_words("x"), strings(&["x"]));
}

#[test]
fn statement_splits_into_stages() {
    let st = parse_statement(" echo hi | cat ");
    assert_eq!(words_of(&st), vec![strings(&["echo", "hi"]), strings(&["cat"])]);
    assert_eq!(st.len(), 2);
    assert!(!st.is_empty());
}

#[test]
fn three_stage_statement() {
    let st = parse_statement("a 1 | b 2 3 | c");
    assert_eq!(
        words_of(&st),
        vec![strings(&["a", "1"]), strings(&["b", "2", "3"]), strings(&["c"])]
    );
}

#[test]
fn empty_stage_texts_give_no_stage() {
    let st = parse_statement("ls | | wc");
    assert_eq!(words_of(&st), vec![strings(&["ls"]), strings(&["wc"])]);
    let empty = parse_statement("   ");
    assert!(empty.is_empty());
    assert_eq!(empty.len(), 0);
}

#[test]
fn line_splits_into_statements_in_order() {
    let sts = parse_line("doesnotexist; echo ok");
    assert_eq!(sts.len(), 2);
    assert_eq!(words_of(&sts[0]), vec![strings(&["doesnotexist"])]);
    assert_eq!(words_of(&sts[1]), vec![strings(&["echo", "ok"])]);
}

#[test]
fn line_with_empty_statements() {
    let sts = parse_line("ls;;pwd;");
    assert_eq!(sts.len(), 4);
    assert_eq!(words_of(&sts[0]), vec![strings(&["ls"])]);
    assert!(sts[1].is_empty());
    assert_eq!(words_of(&sts[2]), vec![strings(&["pwd"])]);
    assert!(sts[3].is_empty());
}

#[test]
fn classify_builtins() {
    assert!(matches!(classify(vec![]), Command::Nothing));
    assert!(matches!(classify(strings(&["exit"])), Command::Exit));
    assert!(matches!(classify(strings(&["clear", "x"])), Command::Clear));
    match classify(strings(&["ls", "/tmp"])) {
        Command::List(v) => assert_eq!(v, strings(&["ls", "/tmp"])),
        _ => panic!("expected ls"),
    }
    match classify(strings(&["read", "-f", "a.txt"])) {
        Command::Read(v) => assert_eq!(v, strings(&["read", "-f", "a.txt"])),
        _ => panic!("expected read"),
    }
    match classify(strings(&["config", "--list"])) {
        Command::Config(v) => assert_eq!(v, strings(&["config", "--list"])),
        _ => panic!("expected config"),
    }
}

#[test]
fn classify_cd_and_echo() {
    match classify(strings(&["cd", "/tmp", "extra"])) {
        Command::ChangeDir(Some(d)) => assert_eq!(d, "/tmp"),
        _ => panic!("expected cd with a target"),
    }
    assert!(matches!(classify(strings(&["cd"])), Command::ChangeDir(None)));
    match classify(strings(&["echo", "a", "b", "c"])) {
        Command::Echo(t) => assert_eq!(t, "a b c"),
        _ => panic!("expected echo"),
    }
    match classify(strings(&["echo"])) {
        Command::Echo(t) => assert_eq!(t, ""),
        _ => panic!("expected echo"),
    }
}

#[test]
fn classify_external_joins_words() {
    match classify(strings(&["grep", "x", "|", "wc", ";", "ls"])) {
        Command::External(t) => assert_eq!(t, "grep x | wc ; ls"),
        _ => panic!("expected external"),
    }
    match classify(strings(&["ECHO", "hi"])) {
        Command::External(t) => assert_eq!(t, "ECHO hi"),
        _ => panic!("builtin names are case sensitive"),
    }
}

#[test]
fn read_command_interprets_quotes() {
    match read_command("echo \"two words\"  'and more'") {
        Ok(Command::Echo(t)) => assert_eq!(t, "two words and more"),
        _ => panic!("expected echo"),
    }
    match read_command("cd 'my dir'") {
        Ok(Command::ChangeDir(Some(d))) => assert_eq!(d, "my dir"),
        _ => panic!("expected cd"),
    }
    assert!(matches!(read_command(""), Ok(Command::Nothing)));
    assert!(matches!(read_command("   "), Ok(Command::Nothing)));
}

#[test]
fn read_command_rejects_open_quote() {
    assert!(matches!(read_command("echo \"oops"), Err(LineError::MismatchedQuotes)));
    assert!(matches!(read_command("ls 'a"), Err(LineError::MismatchedQuotes)));
}

#[test]
fn prompt_shows_directory() {
    assert_eq!(prompt_for("/home/u"), "/home/u >> ");
    assert_eq!(prompt_for(""), " >> ");
}
