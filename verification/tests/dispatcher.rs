use fastgpt::command::{completions_for, dispatch, hint_for, Command};

#[test]
fn empty_line_is_noop() {
    assert!(matches!(dispatch(""), Command::NoOp));
}

#[test]
fn whitespace_only_line_is_noop() {
    assert!(matches!(dispatch("   \t "), Command::NoOp));
}

#[test]
fn exit_and_quit() {
    assert!(matches!(dispatch("/exit"), Command::Exit));
    assert!(matches!(dispatch("/quit"), Command::Exit));
}

#[test]
fn exact_commands() {
    assert!(matches!(dispatch("/clear"), Command::ClearHistory));
    assert!(matches!(dispatch("/history"), Command::ShowHistory));
    assert!(matches!(dispatch("/help"), Command::ShowHelp));
    assert!(matches!(dispatch("/list-files"), Command::ListFiles));
    assert!(matches!(dispatch("/clear-files"), Command::ClearFiles));
}

#[test]
fn add_file_with_path() {
    match dispatch("/add-file notes.txt") {
        Command::AddFile(p) => assert_eq!(p, "notes.txt"),
        _ => panic!("expected AddFile"),
    }
}

#[test]
fn add_file_trailing_space_only_is_an_error() {
    assert!(matches!(dispatch("/add-file "), Command::AddFileMissingPath));
    assert!(matches!(dispatch("/add-file    "), Command::AddFileMissingPath));
}

#[test]
fn add_file_path_is_trimmed() {
    match dispatch("/add-file   a b  ") {
        Command::AddFile(p) => assert_eq!(p, "a b"),
        _ => panic!("expected AddFile"),
    }
}

#[test]
fn add_file_without_space_is_unknown() {
    match dispatch("/add-file") {
        Command::UnknownCommand(s) => assert_eq!(s, "/add-file"),
        _ => panic!("expected UnknownCommand"),
    }
}

#[test]
fn remove_file_with_and_without_path() {
    match dispatch("/remove-file x") {
        Command::RemoveFile(p) => assert_eq!(p, "x"),
        _ => panic!("expected RemoveFile"),
    }
    assert!(matches!(dispatch("/remove-file   "), Command::RemoveFileMissingPath));
}

#[test]
fn plain_text_is_a_question() {
    match dispatch("hello") {
        Command::Question(q) => assert_eq!(q, "hello"),
        _ => panic!("expected Question"),
    }
}

#[test]
fn unknown_slash_command() {
    match dispatch("/bogus") {
        Command::UnknownCommand(s) => assert_eq!(s, "/bogus"),
        _ => panic!("expected UnknownCommand"),
    }
}

#[test]
fn exact_commands_do_not_match_with_trailing_space() {
    match dispatch("/exit ") {
        Command::UnknownCommand(s) => assert_eq!(s, "/exit "),
        _ => panic!("expected UnknownCommand"),
    }
}

#[test]
fn a_lone_slash_hints_the_first_command() {
    assert_eq!(hint_for("/"), Some("exit".to_string()));
}

#[test]
fn hint_completes_a_partial_command() {
    assert_eq!(hint_for("/ex"), Some("it".to_string()));
    assert_eq!(hint_for("/c"), Some("lear".to_string()));
    assert_eq!(hint_for("/add"), Some("-file".to_string()));
}

#[test]
fn hint_only_for_slash_prefixes() {
    assert_eq!(hint_for("ex"), None);
    assert_eq!(hint_for(""), None);
    assert_eq!(hint_for("/exit"), None);
    assert_eq!(hint_for("/zzz"), None);
}

#[test]
fn completions_filter_by_prefix() {
    let all = completions_for("");
    assert_eq!(
        all,
        vec![
            "/exit".to_string(),
            "/quit".to_string(),
            "/clear".to_string(),
            "/history".to_string(),
            "/help".to_string(),
            "/add-file ".to_string(),
            "/remove-file ".to_string(),
            "/list-files".to_string(),
            "/clear-files".to_string(),
        ]
    );
    assert_eq!(
        completions_for("cl"),
        vec!["/clear".to_string(), "/clear-files".to_string()]
    );
    assert_eq!(completions_for("add"), vec!["/add-file ".to_string()]);
    assert_eq!(completions_for("zzz"), Vec::<String>::new());
}
