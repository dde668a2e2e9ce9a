use fastgpt::config::SessionConfig;
use fastgpt::files::PathProbe;
use fastgpt::session::{AskError, Data, FastGPTResponse, Meta, Session};

fn config() -> SessionConfig {
    SessionConfig {
        api_key: "0123456789abcdef".to_string(),
        cache: true,
        json_mode: false,
        show_references: true,
    }
}

fn answer(output: &str) -> FastGPTResponse {
    FastGPTResponse {
        meta: Meta { id: "r-1".to_string(), node: "n-1".to_string(), ms: 12 },
        data: Data { output: output.to_string(), references: vec![], tokens: 7 },
    }
}

#[test]
fn a_fresh_session_is_empty_with_a_full_size_id() {
    let s = Session::new(config());
    assert_eq!(s.id.len(), 36);
    assert_eq!(s.show_history().len(), 0);
    assert_eq!(s.list_files().len(), 0);
}

#[test]
fn two_sessions_get_different_ids() {
    let a = Session::new(config());
    let b = Session::new(config());
    assert_ne!(a.id, b.id);
}

#[test]
fn successful_ask_appends_exactly_the_raw_question_and_output() {
    let mut s = Session::new(config());
    let probe = PathProbe::TextFile("lots of file context".to_string());
    s.add_file("big.txt", probe).unwrap();
    let r = s.ask("X", Ok(answer("the answer text")));
    assert!(r.is_ok());
    let hist = s.show_history();
    assert_eq!(hist.len(), 1);
    assert_eq!(hist[0].question, "X");
    assert_eq!(hist[0].answer, "the answer text");
}

#[test]
fn failed_ask_leaves_history_unchanged() {
    let mut s = Session::new(config());
    s.ask("first", Ok(answer("one"))).unwrap();
    for outcome in [
        AskError::Transport,
        AskError::Http { status: 401, body: "no".to_string() },
        AskError::Decode,
    ] {
        let r = s.ask("second", Err(outcome));
        assert!(r.is_err());
        let hist = s.show_history();
        assert_eq!(hist.len(), 1);
        assert_eq!(hist[0].question, "first");
        assert_eq!(hist[0].answer, "one");
    }
}

#[test]
fn assembled_query_without_context_is_the_question() {
    let s = Session::new(config());
    assert_eq!(s.assembled_query("why?"), "why?");
}

#[test]
fn assembled_query_combines_files_history_and_question() {
    let mut s = Session::new(config());
    s.add_file("f.txt", PathProbe::TextFile("data".to_string())).unwrap();
    s.ask("one", Ok(answer("1"))).unwrap();
    assert_eq!(
        s.assembled_query("two"),
        "File contexts:\n\
         \n--- File: f.txt ---\ndata\n--- End of file ---\n\n\
         Previous conversation context:\n\
         Q1: one\nA1: 1\n\n\
         Current question: two"
    );
}

#[test]
fn ask_replays_only_the_window_but_history_keeps_everything() {
    let mut s = Session::new(config());
    for i in 0..7 {
        let q = format!("q{}", i);
        s.ask(&q, Ok(answer("a"))).unwrap();
    }
    assert_eq!(s.show_history().len(), 7);
    let q = s.assembled_query("next");
    assert!(!q.contains("q0"));
    assert!(!q.contains("q1"));
    assert!(q.contains("Q1: q2"));
    assert!(q.contains("Q5: q6"));
}

#[test]
fn clear_history_and_clear_files_reset_their_parts() {
    let mut s = Session::new(config());
    s.add_file("f.txt", PathProbe::TextFile("data".to_string())).unwrap();
    s.ask("one", Ok(answer("1"))).unwrap();
    s.clear_history();
    assert_eq!(s.show_history().len(), 0);
    assert_eq!(s.list_files().len(), 1);
    s.clear_files();
    assert_eq!(s.list_files().len(), 0);
}

#[test]
fn session_file_operations_mirror_the_store() {
    let mut s = Session::new(config());
    s.add_file("a.txt", PathProbe::TextFile("aaaa".to_string())).unwrap();
    s.add_file("b.txt", PathProbe::TextFile("bb".to_string())).unwrap();
    assert_eq!(s.total_file_bytes(), 6);
    assert!(s.remove_file("a.txt").is_ok());
    assert!(s.remove_file("a.txt").is_err());
    assert_eq!(s.list_files().len(), 1);
    assert_eq!(s.list_files()[0].path, "b.txt");
}
