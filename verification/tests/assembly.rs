use fastgpt::assemble::assemble;
use fastgpt::files::FileContext;
use fastgpt::history::ConversationEntry;

fn file(path: &str, content: &str) -> FileContext {
    FileContext { path: path.to_string(), content: content.to_string(), size: content.len() }
}

fn entry(q: &str, a: &str) -> ConversationEntry {
    ConversationEntry { question: q.to_string(), answer: a.to_string() }
}

#[test]
fn no_context_returns_the_question_unchanged() {
    assert_eq!(assemble(&vec![], &vec![], "Q"), "Q");
}

#[test]
fn one_file_one_block() {
    let files = vec![file("f.txt", "hello")];
    assert_eq!(
        assemble(&files, &vec![], "Q"),
        "File contexts:\n\
         \n--- File: f.txt ---\nhello\n--- End of file ---\n\n\
         Current question: Q"
    );
}

#[test]
fn two_files_in_attach_order() {
    let files = vec![file("a.md", "A"), file("b.md", "B")];
    assert_eq!(
        assemble(&files, &vec![], "Q"),
        "File contexts:\n\
         \n--- File: a.md ---\nA\n--- End of file ---\n\n\
         \n--- File: b.md ---\nB\n--- End of file ---\n\n\
         Current question: Q"
    );
}

#[test]
fn short_history_replays_everything_in_order() {
    let hist = vec![entry("q1", "a1"), entry("q2", "a2")];
    assert_eq!(
        assemble(&vec![], &hist, "Q"),
        "Previous conversation context:\n\
         Q1: q1\nA1: a1\n\n\
         Q2: q2\nA2: a2\n\n\
         Current question: Q"
    );
}

#[test]
fn long_history_replays_the_five_most_recent_oldest_first() {
    let hist = vec![
        entry("q1", "a1"),
        entry("q2", "a2"),
        entry("q3", "a3"),
        entry("q4", "a4"),
        entry("q5", "a5"),
        entry("q6", "a6"),
        entry("q7", "a7"),
    ];
    assert_eq!(
        assemble(&vec![], &hist, "Q"),
        "Previous conversation context:\n\
         Q1: q3\nA1: a3\n\n\
         Q2: q4\nA2: a4\n\n\
         Q3: q5\nA3: a5\n\n\
         Q4: q6\nA4: a6\n\n\
         Q5: q7\nA5: a7\n\n\
         Current question: Q"
    );
}

#[test]
fn files_come_before_history_before_the_question() {
    let files = vec![file("f.txt", "body")];
    let hist = vec![entry("earlier", "answer")];
    assert_eq!(
        assemble(&files, &hist, "now"),
        "File contexts:\n\
         \n--- File: f.txt ---\nbody\n--- End of file ---\n\n\
         Previous conversation context:\n\
         Q1: earlier\nA1: answer\n\n\
         Current question: now"
    );
}
